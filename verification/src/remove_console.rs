//! Removal of `console.*(..)` call statements from a module.
//!
//! A statement is removed (replaced by an empty statement) when it is a call
//! whose callee is `console.<name>`, where `console` is the unresolved global
//! (its syntax context is the unresolved one) and `<name>` is a plain
//! identifier not listed in `exclude`. Every other statement is kept and its
//! children are visited in turn.
use vstd::prelude::*;
use crate::js_ast::{
    blocks_view, callee_view, expr_view, ident_view, prop_view, opt_stmt_view, opt_expr_view, stmt_view, stmts_view, exprs_view, CallExpr, Callee, CalleeV, Expr, ExprV,
    Ident, IdentV, MemberExpr, MemberProp, MemberPropV, Program, Stmt, StmtV,
};
use crate::text::text_eq;

verus! {

/// Plugin options: `true`/`false`, or an object with an `exclude` list.
pub enum RemoveConsoleConfig {
    All(bool),
    WithOptions(Options),
}

/// The object form of the plugin options.
pub struct Options {
    pub exclude: Vec<String>,
}

impl RemoveConsoleConfig {
    /// Whether the configuration switches the removal on.
    pub fn truthy(&self) -> (r: bool)
        ensures
            r == match self {
                RemoveConsoleConfig::All(b) => *b,
                RemoveConsoleConfig::WithOptions(_) => true,
            },
    {
        match self {
            RemoveConsoleConfig::All(b) => *b,
            RemoveConsoleConfig::WithOptions(_) => true,
        }
    }
}

/// The console-removal pass.
pub struct RemoveConsole {
    pub exclude: Vec<String>,
    pub unresolved_ctxt: u32,
}

/// The syntax context that a span without any mark carries.
pub const EMPTY_CTXT: u32 = 0;

/// The characters of `console`.
pub open spec fn console_name() -> Seq<char> {
    seq!['c', 'o', 'n', 's', 'o', 'l', 'e']
}

pub open spec fn names_view(v: Vec<String>) -> Seq<Seq<char>> {
    v@.map_values(|s: String| s@)
}

/// `ident` is the global, unresolved `console`.
pub open spec fn is_global_console_spec(ident: IdentV, unresolved_ctxt: u32) -> bool {
    ident.sym == console_name() && ident.ctxt == unresolved_ctxt
}

/// A call with this callee is a removable console call.
pub open spec fn should_remove_spec(
    exclude: Seq<Seq<char>>,
    unresolved_ctxt: u32,
    callee: CalleeV,
) -> bool {
    match callee {
        CalleeV::Expr(e) => match *e {
            ExprV::Member(obj, prop) => match prop {
                MemberPropV::Ident(p) => (match *obj {
                    ExprV::Ident(i) => is_global_console_spec(i, unresolved_ctxt),
                    _ => false,
                }) && !exclude.contains(p.sym),
                _ => false,
            },
            _ => false,
        },
        _ => false,
    }
}

/// A statement that the pass replaces by an empty statement.
pub open spec fn removed_stmt(exclude: Seq<Seq<char>>, unresolved_ctxt: u32, s: StmtV) -> bool {
    match s {
        StmtV::Expr(e) => match *e {
            ExprV::Call(callee, _) => should_remove_spec(exclude, unresolved_ctxt, callee),
            _ => false,
        },
        _ => false,
    }
}

pub open spec fn fold_stmt_spec(exclude: Seq<Seq<char>>, ctxt: u32, s: StmtV) -> StmtV
    decreases s,
{
    if removed_stmt(exclude, ctxt, s) {
        StmtV::Empty
    } else {
        match s {
            StmtV::Expr(e) => StmtV::Expr(Box::new(fold_expr_spec(exclude, ctxt, *e))),
            StmtV::Block(v) => StmtV::Block(fold_stmts_spec(exclude, ctxt, v)),
            StmtV::If(t, c, a) => StmtV::If(
                Box::new(fold_expr_spec(exclude, ctxt, *t)),
                Box::new(fold_stmt_spec(exclude, ctxt, *c)),
                match a {
                    Some(b) => Some(Box::new(fold_stmt_spec(exclude, ctxt, *b))),
                    None => None,
                },
            ),
            StmtV::Return(e) => StmtV::Return(
                match e {
                    Some(x) => Some(Box::new(fold_expr_spec(exclude, ctxt, *x))),
                    None => None,
                },
            ),
            StmtV::Empty => StmtV::Empty,
            StmtV::Compound(k, xs, bs) => StmtV::Compound(
                k,
                fold_exprs_spec(exclude, ctxt, xs),
                fold_blocks_spec(exclude, ctxt, bs),
            ),
            StmtV::Other => StmtV::Other,
        }
    }
}

pub open spec fn fold_blocks_spec(exclude: Seq<Seq<char>>, ctxt: u32, v: Seq<Seq<StmtV>>) -> Seq<
    Seq<StmtV>,
>
    decreases v,
{
    Seq::new(
        v.len(),
        |i: int|
            if 0 <= i < v.len() {
                fold_stmts_spec(exclude, ctxt, v[i])
            } else {
                Seq::empty()
            },
    )
}

pub open spec fn fold_stmts_spec(exclude: Seq<Seq<char>>, ctxt: u32, v: Seq<StmtV>) -> Seq<StmtV>
    decreases v,
{
    Seq::new(
        v.len(),
        |i: int|
            if 0 <= i < v.len() {
                fold_stmt_spec(exclude, ctxt, v[i])
            } else {
                StmtV::Other
            },
    )
}

pub open spec fn fold_expr_spec(exclude: Seq<Seq<char>>, ctxt: u32, e: ExprV) -> ExprV
    decreases e,
{
    match e {
        ExprV::Ident(i) => ExprV::Ident(i),
        ExprV::Member(obj, prop) => ExprV::Member(
            Box::new(fold_expr_spec(exclude, ctxt, *obj)),
            match prop {
                MemberPropV::Computed(x) => MemberPropV::Computed(
                    Box::new(fold_expr_spec(exclude, ctxt, *x)),
                ),
                _ => prop,
            },
        ),
        ExprV::Call(callee, args) => ExprV::Call(
            match callee {
                CalleeV::Expr(x) => CalleeV::Expr(Box::new(fold_expr_spec(exclude, ctxt, *x))),
                _ => callee,
            },
            fold_exprs_spec(exclude, ctxt, args),
        ),
        ExprV::Function(body) => ExprV::Function(fold_stmts_spec(exclude, ctxt, body)),
        ExprV::Lit(s) => ExprV::Lit(s),
        ExprV::Compound(k, xs) => ExprV::Compound(k, fold_exprs_spec(exclude, ctxt, xs)),
        ExprV::Other => ExprV::Other,
    }
}

pub open spec fn fold_exprs_spec(exclude: Seq<Seq<char>>, ctxt: u32, v: Seq<ExprV>) -> Seq<ExprV>
    decreases v,
{
    Seq::new(
        v.len(),
        |i: int|
            if 0 <= i < v.len() {
                fold_expr_spec(exclude, ctxt, v[i])
            } else {
                ExprV::Other
            },
    )
}

/// Folding keeps the kind of an expression, and a call's callee keeps
/// whether it is a removable console call.
proof fn lemma_removal_kept_by_fold(exclude: Seq<Seq<char>>, ctxt: u32, e: ExprV)
    ensures
        removed_stmt(exclude, ctxt, StmtV::Expr(Box::new(fold_expr_spec(exclude, ctxt, e))))
            == removed_stmt(exclude, ctxt, StmtV::Expr(Box::new(e))),
{
    match e {
        ExprV::Call(callee, args) => {
            let fargs = fold_exprs_spec(exclude, ctxt, args);
            match callee {
                CalleeV::Expr(x) => {
                    let fx = fold_expr_spec(exclude, ctxt, *x);
                    assert(fold_expr_spec(exclude, ctxt, e) == ExprV::Call(CalleeV::Expr(Box::new(fx)), fargs));
                    match *x {
                        ExprV::Member(obj, prop) => {
                            let fo = fold_expr_spec(exclude, ctxt, *obj);
                            let fp = match prop {
                                MemberPropV::Computed(y) => MemberPropV::Computed(
                                    Box::new(fold_expr_spec(exclude, ctxt, *y)),
                                ),
                                _ => prop,
                            };
                            assert(fx == ExprV::Member(Box::new(fo), fp));
                            match *obj {
                                ExprV::Ident(i) => {
                                    assert(fo == ExprV::Ident(i));
                                },
                                _ => {
                                    assert(!(fo is Ident));
                                },
                            }
                            assert(should_remove_spec(exclude, ctxt, CalleeV::Expr(Box::new(fx)))
                                == should_remove_spec(exclude, ctxt, callee));
                        },
                        _ => {
                            assert(!(fx is Member));
                        },
                    }
                },
                _ => {
                    assert(fold_expr_spec(exclude, ctxt, e) == ExprV::Call(callee, fargs));
                },
            }
        },
        _ => {
            assert(!(fold_expr_spec(exclude, ctxt, e) is Call));
        },
    }
}

/// Removing console calls a second time changes nothing: the result of a
/// statement holds no removable call at any depth.
pub proof fn lemma_fold_stmt_idempotent(exclude: Seq<Seq<char>>, ctxt: u32, s: StmtV)
    ensures
        fold_stmt_spec(exclude, ctxt, fold_stmt_spec(exclude, ctxt, s)) == fold_stmt_spec(exclude, ctxt, s),
    decreases s,
{
    if !removed_stmt(exclude, ctxt, s) {
        match s {
            StmtV::Expr(e) => {
                lemma_fold_expr_idempotent(exclude, ctxt, *e);
                lemma_removal_kept_by_fold(exclude, ctxt, *e);
            },
            StmtV::Block(v) => {
                lemma_fold_stmts_idempotent(exclude, ctxt, v);
            },
            StmtV::If(t, c, a) => {
                lemma_fold_expr_idempotent(exclude, ctxt, *t);
                lemma_fold_stmt_idempotent(exclude, ctxt, *c);
                match a {
                    Some(b) => lemma_fold_stmt_idempotent(exclude, ctxt, *b),
                    None => {},
                }
            },
            StmtV::Return(e) => {
                match e {
                    Some(x) => lemma_fold_expr_idempotent(exclude, ctxt, *x),
                    None => {},
                }
            },
            StmtV::Compound(k, xs, bs) => {
                lemma_fold_exprs_idempotent(exclude, ctxt, xs);
                lemma_fold_blocks_idempotent(exclude, ctxt, bs);
            },
            _ => {},
        }
    }
}

proof fn lemma_fold_blocks_idempotent(exclude: Seq<Seq<char>>, ctxt: u32, v: Seq<Seq<StmtV>>)
    ensures
        fold_blocks_spec(exclude, ctxt, fold_blocks_spec(exclude, ctxt, v)) == fold_blocks_spec(exclude, ctxt, v),
    decreases v,
{
    let once = fold_blocks_spec(exclude, ctxt, v);
    let twice = fold_blocks_spec(exclude, ctxt, once);
    assert forall|i: int| 0 <= i < v.len() implies twice[i] == once[i] by {
        lemma_fold_stmts_idempotent(exclude, ctxt, v[i]);
    }
    assert(twice =~= once);
}

/// Removing console calls a second time changes nothing, statement by
/// statement.
pub proof fn lemma_fold_stmts_idempotent(exclude: Seq<Seq<char>>, ctxt: u32, v: Seq<StmtV>)
    ensures
        fold_stmts_spec(exclude, ctxt, fold_stmts_spec(exclude, ctxt, v)) == fold_stmts_spec(exclude, ctxt, v),
    decreases v,
{
    let once = fold_stmts_spec(exclude, ctxt, v);
    let twice = fold_stmts_spec(exclude, ctxt, once);
    assert forall|i: int| 0 <= i < v.len() implies twice[i] == once[i] by {
        lemma_fold_stmt_idempotent(exclude, ctxt, v[i]);
    }
    assert(twice =~= once);
}

/// Removing console calls from an expression a second time changes
/// nothing.
pub proof fn lemma_fold_expr_idempotent(exclude: Seq<Seq<char>>, ctxt: u32, e: ExprV)
    ensures
        fold_expr_spec(exclude, ctxt, fold_expr_spec(exclude, ctxt, e)) == fold_expr_spec(exclude, ctxt, e),
    decreases e,
{
    match e {
        ExprV::Member(obj, prop) => {
            lemma_fold_expr_idempotent(exclude, ctxt, *obj);
            match prop {
                MemberPropV::Computed(x) => lemma_fold_expr_idempotent(exclude, ctxt, *x),
                _ => {},
            }
        },
        ExprV::Call(callee, args) => {
            match callee {
                CalleeV::Expr(x) => lemma_fold_expr_idempotent(exclude, ctxt, *x),
                _ => {},
            }
            lemma_fold_exprs_idempotent(exclude, ctxt, args);
        },
        ExprV::Function(body) => {
            lemma_fold_stmts_idempotent(exclude, ctxt, body);
        },
        ExprV::Compound(k, xs) => {
            lemma_fold_exprs_idempotent(exclude, ctxt, xs);
        },
        _ => {},
    }
}

proof fn lemma_fold_exprs_idempotent(exclude: Seq<Seq<char>>, ctxt: u32, v: Seq<ExprV>)
    ensures
        fold_exprs_spec(exclude, ctxt, fold_exprs_spec(exclude, ctxt, v)) == fold_exprs_spec(exclude, ctxt, v),
    decreases v,
{
    let once = fold_exprs_spec(exclude, ctxt, v);
    let twice = fold_exprs_spec(exclude, ctxt, once);
    assert forall|i: int| 0 <= i < v.len() implies twice[i] == once[i] by {
        lemma_fold_expr_idempotent(exclude, ctxt, v[i]);
    }
    assert(twice =~= once);
}

/// Removal replaces statements and never drops or adds one: a module keeps
/// its number of top-level statements, and each one stays in its place.
pub proof fn lemma_fold_stmts_in_place(exclude: Seq<Seq<char>>, ctxt: u32, v: Seq<StmtV>)
    ensures
        fold_stmts_spec(exclude, ctxt, v).len() == v.len(),
        forall|i: int|
            0 <= i < v.len() ==> #[trigger] fold_stmts_spec(exclude, ctxt, v)[i] == fold_stmt_spec(
                exclude,
                ctxt,
                v[i],
            ),
{
}

/// No statement at any depth of `s` is a removable console call: not `s`
/// itself, nor one inside its blocks, branches or bodies, nor one inside
/// a function that one of its expressions holds.
pub open spec fn stmt_clean(exclude: Seq<Seq<char>>, ctxt: u32, s: StmtV) -> bool
    decreases s,
{
    !removed_stmt(exclude, ctxt, s) && match s {
        StmtV::Expr(e) => expr_clean(exclude, ctxt, *e),
        StmtV::Block(v) => stmts_clean(exclude, ctxt, v),
        StmtV::If(t, c, a) => expr_clean(exclude, ctxt, *t) && stmt_clean(exclude, ctxt, *c) && match a {
            Some(b) => stmt_clean(exclude, ctxt, *b),
            None => true,
        },
        StmtV::Return(e) => match e {
            Some(x) => expr_clean(exclude, ctxt, *x),
            None => true,
        },
        StmtV::Compound(_, xs, bs) => exprs_clean(exclude, ctxt, xs) && blocks_clean(exclude, ctxt, bs),
        _ => true,
    }
}

/// No statement at any depth of the statements `v` is a removable console
/// call.
pub open spec fn stmts_clean(exclude: Seq<Seq<char>>, ctxt: u32, v: Seq<StmtV>) -> bool
    decreases v,
{
    forall|i: int| 0 <= i < v.len() ==> stmt_clean(exclude, ctxt, #[trigger] v[i])
}

/// No statement at any depth of the blocks `v` is a removable console call.
pub open spec fn blocks_clean(exclude: Seq<Seq<char>>, ctxt: u32, v: Seq<Seq<StmtV>>) -> bool
    decreases v,
{
    forall|i: int| 0 <= i < v.len() ==> stmts_clean(exclude, ctxt, #[trigger] v[i])
}

/// No statement inside a function that `e` holds, at any depth, is a
/// removable console call.
pub open spec fn expr_clean(exclude: Seq<Seq<char>>, ctxt: u32, e: ExprV) -> bool
    decreases e,
{
    match e {
        ExprV::Member(obj, prop) => expr_clean(exclude, ctxt, *obj) && match prop {
            MemberPropV::Computed(x) => expr_clean(exclude, ctxt, *x),
            _ => true,
        },
        ExprV::Call(callee, args) => exprs_clean(exclude, ctxt, args) && match callee {
            CalleeV::Expr(x) => expr_clean(exclude, ctxt, *x),
            _ => true,
        },
        ExprV::Function(body) => stmts_clean(exclude, ctxt, body),
        ExprV::Compound(_, xs) => exprs_clean(exclude, ctxt, xs),
        _ => true,
    }
}

/// No statement inside a function that one of `v` holds is a removable
/// console call.
pub open spec fn exprs_clean(exclude: Seq<Seq<char>>, ctxt: u32, v: Seq<ExprV>) -> bool
    decreases v,
{
    forall|i: int| 0 <= i < v.len() ==> expr_clean(exclude, ctxt, #[trigger] v[i])
}

/// After removal no statement at any depth of the result is a removable
/// console call, whatever expression or statement holds it.
pub proof fn lemma_fold_stmt_clean(exclude: Seq<Seq<char>>, ctxt: u32, s: StmtV)
    ensures
        stmt_clean(exclude, ctxt, fold_stmt_spec(exclude, ctxt, s)),
    decreases s,
{
    if !removed_stmt(exclude, ctxt, s) {
        match s {
            StmtV::Expr(e) => {
                lemma_fold_expr_clean(exclude, ctxt, *e);
                lemma_removal_kept_by_fold(exclude, ctxt, *e);
            },
            StmtV::Block(v) => {
                lemma_fold_stmts_clean(exclude, ctxt, v);
            },
            StmtV::If(t, c, a) => {
                lemma_fold_expr_clean(exclude, ctxt, *t);
                lemma_fold_stmt_clean(exclude, ctxt, *c);
                match a {
                    Some(b) => lemma_fold_stmt_clean(exclude, ctxt, *b),
                    None => {},
                }
            },
            StmtV::Return(e) => {
                match e {
                    Some(x) => lemma_fold_expr_clean(exclude, ctxt, *x),
                    None => {},
                }
            },
            StmtV::Compound(k, xs, bs) => {
                lemma_fold_exprs_clean(exclude, ctxt, xs);
                lemma_fold_blocks_clean(exclude, ctxt, bs);
            },
            _ => {},
        }
    }
}

/// After removal no statement at any depth of the resulting statements is
/// a removable console call.
pub proof fn lemma_fold_stmts_clean(exclude: Seq<Seq<char>>, ctxt: u32, v: Seq<StmtV>)
    ensures
        stmts_clean(exclude, ctxt, fold_stmts_spec(exclude, ctxt, v)),
    decreases v,
{
    let r = fold_stmts_spec(exclude, ctxt, v);
    assert forall|i: int| 0 <= i < r.len() implies stmt_clean(exclude, ctxt, #[trigger] r[i]) by {
        lemma_fold_stmt_clean(exclude, ctxt, v[i]);
    }
}

proof fn lemma_fold_blocks_clean(exclude: Seq<Seq<char>>, ctxt: u32, v: Seq<Seq<StmtV>>)
    ensures
        blocks_clean(exclude, ctxt, fold_blocks_spec(exclude, ctxt, v)),
    decreases v,
{
    let r = fold_blocks_spec(exclude, ctxt, v);
    assert forall|i: int| 0 <= i < r.len() implies stmts_clean(exclude, ctxt, #[trigger] r[i]) by {
        lemma_fold_stmts_clean(exclude, ctxt, v[i]);
    }
}

/// After removal no statement inside a function that the resulting
/// expression holds, at any depth, is a removable console call.
pub proof fn lemma_fold_expr_clean(exclude: Seq<Seq<char>>, ctxt: u32, e: ExprV)
    ensures
        expr_clean(exclude, ctxt, fold_expr_spec(exclude, ctxt, e)),
    decreases e,
{
    match e {
        ExprV::Member(obj, prop) => {
            lemma_fold_expr_clean(exclude, ctxt, *obj);
            match prop {
                MemberPropV::Computed(x) => lemma_fold_expr_clean(exclude, ctxt, *x),
                _ => {},
            }
        },
        ExprV::Call(callee, args) => {
            match callee {
                CalleeV::Expr(x) => lemma_fold_expr_clean(exclude, ctxt, *x),
                _ => {},
            }
            lemma_fold_exprs_clean(exclude, ctxt, args);
        },
        ExprV::Function(body) => {
            lemma_fold_stmts_clean(exclude, ctxt, body);
        },
        ExprV::Compound(k, xs) => {
            lemma_fold_exprs_clean(exclude, ctxt, xs);
        },
        _ => {},
    }
}

proof fn lemma_fold_exprs_clean(exclude: Seq<Seq<char>>, ctxt: u32, v: Seq<ExprV>)
    ensures
        exprs_clean(exclude, ctxt, fold_exprs_spec(exclude, ctxt, v)),
    decreases v,
{
    let r = fold_exprs_spec(exclude, ctxt, v);
    assert forall|i: int| 0 <= i < r.len() implies expr_clean(exclude, ctxt, #[trigger] r[i]) by {
        lemma_fold_expr_clean(exclude, ctxt, v[i]);
    }
}

/// A statement with no removable console call at any depth is left as it
/// is.
pub proof fn lemma_clean_stmt_unchanged(exclude: Seq<Seq<char>>, ctxt: u32, s: StmtV)
    requires
        stmt_clean(exclude, ctxt, s),
    ensures
        fold_stmt_spec(exclude, ctxt, s) == s,
    decreases s,
{
    match s {
        StmtV::Expr(e) => {
            lemma_clean_expr_unchanged(exclude, ctxt, *e);
        },
        StmtV::Block(v) => {
            lemma_clean_stmts_unchanged(exclude, ctxt, v);
        },
        StmtV::If(t, c, a) => {
            lemma_clean_expr_unchanged(exclude, ctxt, *t);
            lemma_clean_stmt_unchanged(exclude, ctxt, *c);
            match a {
                Some(b) => lemma_clean_stmt_unchanged(exclude, ctxt, *b),
                None => {},
            }
        },
        StmtV::Return(e) => {
            match e {
                Some(x) => lemma_clean_expr_unchanged(exclude, ctxt, *x),
                None => {},
            }
        },
        StmtV::Compound(k, xs, bs) => {
            lemma_clean_exprs_unchanged(exclude, ctxt, xs);
            lemma_clean_blocks_unchanged(exclude, ctxt, bs);
        },
        _ => {},
    }
}

/// Statements with no removable console call at any depth are left as
/// they are.
pub proof fn lemma_clean_stmts_unchanged(exclude: Seq<Seq<char>>, ctxt: u32, v: Seq<StmtV>)
    requires
        stmts_clean(exclude, ctxt, v),
    ensures
        fold_stmts_spec(exclude, ctxt, v) == v,
    decreases v,
{
    let r = fold_stmts_spec(exclude, ctxt, v);
    assert forall|i: int| 0 <= i < v.len() implies r[i] == v[i] by {
        lemma_clean_stmt_unchanged(exclude, ctxt, v[i]);
    }
    assert(r =~= v);
}

proof fn lemma_clean_blocks_unchanged(exclude: Seq<Seq<char>>, ctxt: u32, v: Seq<Seq<StmtV>>)
    requires
        blocks_clean(exclude, ctxt, v),
    ensures
        fold_blocks_spec(exclude, ctxt, v) == v,
    decreases v,
{
    let r = fold_blocks_spec(exclude, ctxt, v);
    assert forall|i: int| 0 <= i < v.len() implies r[i] == v[i] by {
        lemma_clean_stmts_unchanged(exclude, ctxt, v[i]);
    }
    assert(r =~= v);
}

/// An expression that holds no removable console call statement at any
/// depth is left as it is.
pub proof fn lemma_clean_expr_unchanged(exclude: Seq<Seq<char>>, ctxt: u32, e: ExprV)
    requires
        expr_clean(exclude, ctxt, e),
    ensures
        fold_expr_spec(exclude, ctxt, e) == e,
    decreases e,
{
    match e {
        ExprV::Member(obj, prop) => {
            lemma_clean_expr_unchanged(exclude, ctxt, *obj);
            match prop {
                MemberPropV::Computed(x) => lemma_clean_expr_unchanged(exclude, ctxt, *x),
                _ => {},
            }
        },
        ExprV::Call(callee, args) => {
            match callee {
                CalleeV::Expr(x) => lemma_clean_expr_unchanged(exclude, ctxt, *x),
                _ => {},
            }
            lemma_clean_exprs_unchanged(exclude, ctxt, args);
        },
        ExprV::Function(body) => {
            lemma_clean_stmts_unchanged(exclude, ctxt, body);
        },
        ExprV::Compound(k, xs) => {
            lemma_clean_exprs_unchanged(exclude, ctxt, xs);
        },
        _ => {},
    }
}

proof fn lemma_clean_exprs_unchanged(exclude: Seq<Seq<char>>, ctxt: u32, v: Seq<ExprV>)
    requires
        exprs_clean(exclude, ctxt, v),
    ensures
        fold_exprs_spec(exclude, ctxt, v) == v,
    decreases v,
{
    let r = fold_exprs_spec(exclude, ctxt, v);
    assert forall|i: int| 0 <= i < v.len() implies r[i] == v[i] by {
        lemma_clean_expr_unchanged(exclude, ctxt, v[i]);
    }
    assert(r =~= v);
}

/// A call whose callee is `obj.prop` is removable exactly when `obj` is
/// the identifier `console` with the unresolved context (the global
/// console, not a local binding of that name) and `prop` is a plain name
/// that is not excluded; a computed or private property keeps the call.
pub proof fn lemma_removable_callee(exclude: Seq<Seq<char>>, ctxt: u32, obj: ExprV, prop: MemberPropV)
    ensures
        should_remove_spec(exclude, ctxt, CalleeV::Expr(Box::new(ExprV::Member(Box::new(obj), prop)))) <==> ((
        obj matches ExprV::Ident(i) && i.sym == seq!['c', 'o', 'n', 's', 'o', 'l', 'e'] && i.ctxt == ctxt) && (
        prop matches MemberPropV::Ident(p) && !exclude.contains(p.sym))),
{
}

/// Only a call of a member expression can be removable: `super(..)`,
/// `import(..)` and calls of any other callee are kept.
pub proof fn lemma_only_member_calls_removable(exclude: Seq<Seq<char>>, ctxt: u32, callee: CalleeV)
    requires
        !(callee matches CalleeV::Expr(e) && *e is Member),
    ensures
        !should_remove_spec(exclude, ctxt, callee),
{
}

/// A call of an excluded method is never removed.
pub proof fn lemma_excluded_kept(exclude: Seq<Seq<char>>, ctxt: u32, callee: CalleeV)
    requires
        callee matches CalleeV::Expr(e) && *e matches ExprV::Member(_, MemberPropV::Ident(p))
            && exclude.contains(p.sym),
    ensures
        !should_remove_spec(exclude, ctxt, callee),
{
}

impl RemoveConsole {
    pub open spec fn exclude_view(&self) -> Seq<Seq<char>> {
        names_view(self.exclude)
    }

    /// The pass that the plugin sets up from its options. `None` stands for
    /// options given as `null`, which count as `true`; the excluded names
    /// come from the object form, and no other form excludes any.
    pub fn new(config: Option<RemoveConsoleConfig>) -> (r: Self)
        ensures
            r.unresolved_ctxt == EMPTY_CTXT,
            r.exclude_view() == match config {
                Some(RemoveConsoleConfig::WithOptions(o)) => names_view(o.exclude),
                _ => Seq::<Seq<char>>::empty(),
            },
    {
        let ghost has_options = config matches Some(RemoveConsoleConfig::WithOptions(_));
        let exclude = match config {
            Some(RemoveConsoleConfig::WithOptions(x)) => x.exclude,
            _ => Vec::new(),
        };
        let r = RemoveConsole { exclude, unresolved_ctxt: EMPTY_CTXT };
        proof {
            if !has_options {
                assert(r.exclude_view() =~= Seq::<Seq<char>>::empty());
            }
        }
        r
    }

    /// The plugin's name.
    pub fn name(&self) -> (r: &'static str)
        ensures
            r@ == "RemoveConsole"@,
    {
        "RemoveConsole"
    }

    /// The pass that a module's transform runs: nothing excluded, and the
    /// given context as the unresolved one.
    pub fn remove_console(unresolved_ctxt: u32) -> (r: Self)
        ensures
            r.unresolved_ctxt == unresolved_ctxt,
            r.exclude_view() == Seq::<Seq<char>>::empty(),
    {
        let r = RemoveConsole { exclude: Vec::new(), unresolved_ctxt };
        assert(r.exclude_view() =~= Seq::<Seq<char>>::empty());
        r
    }

    /// Whether `ident` is the global `console`.
    pub fn is_global_console(&self, ident: &Ident) -> (r: bool)
        ensures
            r == is_global_console_spec(ident_view(*ident), self.unresolved_ctxt),
    {
        let name = "console";
        proof {
            reveal_strlit("console");
            assert(name@ =~= console_name());
        }
        text_eq(ident.sym.as_str(), name) && ident.ctxt == self.unresolved_ctxt
    }

    /// Whether `name` is one of the excluded property names.
    fn is_excluded(&self, name: &String) -> (r: bool)
        ensures
            r == self.exclude_view().contains(name@),
    {
        let mut i: usize = 0;
        while i < self.exclude.len()
            invariant
                i <= self.exclude@.len(),
                forall|j: int| 0 <= j < i ==> self.exclude@[j]@ != name@,
            decreases self.exclude@.len() - i,
        {
            if text_eq(self.exclude[i].as_str(), name.as_str()) {
                assert(self.exclude_view()[i as int] == name@);
                return true;
            }
            i = i + 1;
        }
        proof {
            if self.exclude_view().contains(name@) {
                let k = choose|k: int| 0 <= k < self.exclude_view().len() && self.exclude_view()[k] == name@;
                assert(self.exclude@[k]@ == name@);
            }
        }
        false
    }

    /// Whether the call `n` is a console call that the pass removes.
    pub fn should_remove_call(&self, n: &CallExpr) -> (r: bool)
        ensures
            r == should_remove_spec(self.exclude_view(), self.unresolved_ctxt, callee_view(n.callee)),
    {
        let e = match &n.callee {
            Callee::Expr(e) => e,
            _ => {
                assert(callee_view(n.callee) is Super || callee_view(n.callee) is Import);
                return false;
            },
        };
        assert(callee_view(n.callee) == CalleeV::Expr(Box::new(expr_view(**e))));
        let member_expr = match &**e {
            Expr::Member(m) => m,
            _ => {
                assert(!(expr_view(**e) is Member));
                return false;
            },
        };
        let ghost objv = expr_view(*member_expr.obj);
        let ghost propv = prop_view(member_expr.prop);
        assert(expr_view(**e) == ExprV::Member(Box::new(objv), propv));
        if let MemberProp::Computed(_) = &member_expr.prop {
            assert(propv is Computed);
            return false;
        }
        match &*member_expr.obj {
            Expr::Ident(i) => {
                assert(objv == ExprV::Ident(ident_view(*i)));
                if !self.is_global_console(i) {
                    return false;
                }
            },
            _ => {
                assert(!(objv is Ident));
                return false;
            },
        }
        match &member_expr.prop {
            MemberProp::Ident(i) => {
                assert(propv == MemberPropV::Ident(ident_view(*i)));
                !self.is_excluded(&i.sym)
            },
            _ => {
                assert(propv is PrivateName);
                false
            },
        }
    }

    /// The statement with removable console calls taken out, at any depth.
    pub fn fold_stmt(&self, stmt: Stmt) -> (r: Stmt)
        ensures
            stmt_view(r) == fold_stmt_spec(self.exclude_view(), self.unresolved_ctxt, stmt_view(stmt)),
        decreases stmt,
    {
        let ghost ex = self.exclude_view();
        let ghost cx = self.unresolved_ctxt;
        let ghost sv = stmt_view(stmt);
        match stmt {
            Stmt::Expr(e) => {
                assert(sv == StmtV::Expr(Box::new(expr_view(*e))));
                let remove = match &*e {
                    Expr::Call(c) => {
                        assert(expr_view(*e) == ExprV::Call(callee_view(c.callee), exprs_view(c.args)));
                        self.should_remove_call(c)
                    },
                    _ => {
                        assert(!(expr_view(*e) is Call));
                        false
                    },
                };
                assert(remove == removed_stmt(ex, cx, sv));
                if remove {
                    Stmt::Empty
                } else {
                    let e2 = self.fold_expr(*e);
                    let r = Stmt::Expr(Box::new(e2));
                    assert(stmt_view(r) == StmtV::Expr(Box::new(expr_view(e2))));
                    r
                }
            },
            Stmt::Block(v) => {
                assert(sv == StmtV::Block(stmts_view(v)));
                let w = self.fold_stmts(v);
                let r = Stmt::Block(w);
                assert(stmt_view(r) == StmtV::Block(stmts_view(w)));
                r
            },
            Stmt::If(t, c, a) => {
                let ghost av = opt_stmt_view(a);
                assert(sv == StmtV::If(Box::new(expr_view(*t)), Box::new(stmt_view(*c)), av));
                let t2 = self.fold_expr(*t);
                let c2 = self.fold_stmt(*c);
                let a2 = match a {
                    Some(b) => Some(Box::new(self.fold_stmt(*b))),
                    None => None,
                };
                let ghost a2v = opt_stmt_view(a2);
                let r = Stmt::If(Box::new(t2), Box::new(c2), a2);
                assert(stmt_view(r) == StmtV::If(Box::new(expr_view(t2)), Box::new(stmt_view(c2)), a2v));
                r
            },
            Stmt::Return(e) => {
                let ghost ev = opt_expr_view(e);
                assert(sv == StmtV::Return(ev));
                let e2 = match e {
                    Some(x) => Some(Box::new(self.fold_expr(*x))),
                    None => None,
                };
                let ghost e2v = opt_expr_view(e2);
                let r = Stmt::Return(e2);
                assert(stmt_view(r) == StmtV::Return(e2v));
                r
            },
            Stmt::Empty => {
                assert(sv == StmtV::Empty);
                Stmt::Empty
            },
            Stmt::Compound(k, xs, bs) => {
                assert(sv == StmtV::Compound(k@, exprs_view(xs), blocks_view(bs)));
                let xs2 = self.fold_exprs(xs);
                let bs2 = self.fold_blocks(bs);
                let r = Stmt::Compound(k, xs2, bs2);
                assert(stmt_view(r) == StmtV::Compound(k@, exprs_view(xs2), blocks_view(bs2)));
                r
            },
            Stmt::Other => {
                assert(sv == StmtV::Other);
                Stmt::Other
            },
        }
    }

    /// Each statement of `v`, folded, in order.
    pub fn fold_stmts(&self, v: Vec<Stmt>) -> (r: Vec<Stmt>)
        ensures
            stmts_view(r) == fold_stmts_spec(self.exclude_view(), self.unresolved_ctxt, stmts_view(v)),
        decreases v,
    {
        let ghost orig = v;
        let mut rest = v;
        let mut out: Vec<Stmt> = Vec::new();
        #[verifier::loop_isolation(false)]
        while rest.len() > 0
            invariant
                out@.len() + rest@.len() == orig@.len(),
                forall|j: int|
                    0 <= j < rest@.len() ==> #[trigger] rest@[j] == orig@[out@.len() + j],
                forall|j: int|
                    0 <= j < out@.len() ==> stmt_view(#[trigger] out@[j]) == fold_stmt_spec(
                        self.exclude_view(),
                        self.unresolved_ctxt,
                        stmt_view(orig@[j]),
                    ),
            decreases rest@.len(),
        {
            let x = rest.remove(0);
            proof {
                assert(x == orig@[out@.len() as int]);
                assert(decreases_to!(orig => orig@));
                assert(decreases_to!(orig@ => orig@[out@.len() as int]));
            }
            let y = self.fold_stmt(x);
            out.push(y);
        }
        let ghost a = stmts_view(out);
        let ghost b = fold_stmts_spec(self.exclude_view(), self.unresolved_ctxt, stmts_view(orig));
        assert(a =~= b);
        out
    }

    /// Each statement list of `v`, folded, in order.
    pub fn fold_blocks(&self, v: Vec<Vec<Stmt>>) -> (r: Vec<Vec<Stmt>>)
        ensures
            blocks_view(r) == fold_blocks_spec(self.exclude_view(), self.unresolved_ctxt, blocks_view(v)),
        decreases v,
    {
        let ghost orig = v;
        let mut rest = v;
        let mut out: Vec<Vec<Stmt>> = Vec::new();
        #[verifier::loop_isolation(false)]
        while rest.len() > 0
            invariant
                out@.len() + rest@.len() == orig@.len(),
                forall|j: int|
                    0 <= j < rest@.len() ==> #[trigger] rest@[j] == orig@[out@.len() + j],
                forall|j: int|
                    0 <= j < out@.len() ==> stmts_view(#[trigger] out@[j]) == fold_stmts_spec(
                        self.exclude_view(),
                        self.unresolved_ctxt,
                        stmts_view(orig@[j]),
                    ),
            decreases rest@.len(),
        {
            let x = rest.remove(0);
            proof {
                assert(x == orig@[out@.len() as int]);
                assert(decreases_to!(orig => orig@));
                assert(decreases_to!(orig@ => orig@[out@.len() as int]));
            }
            let y = self.fold_stmts(x);
            out.push(y);
        }
        let ghost a = blocks_view(out);
        let ghost b = fold_blocks_spec(self.exclude_view(), self.unresolved_ctxt, blocks_view(orig));
        assert(a =~= b);
        out
    }

    /// The expression with removable console calls taken out of every
    /// function body in it.
    pub fn fold_expr(&self, e: Expr) -> (r: Expr)
        ensures
            expr_view(r) == fold_expr_spec(self.exclude_view(), self.unresolved_ctxt, expr_view(e)),
        decreases e,
    {
        let ghost ex = self.exclude_view();
        let ghost cx = self.unresolved_ctxt;
        let ghost ev = expr_view(e);
        match e {
            Expr::Ident(i) => {
                let r = Expr::Ident(i);
                assert(ev == ExprV::Ident(ident_view(i)));
                assert(expr_view(r) == ExprV::Ident(ident_view(i)));
                r
            },
            Expr::Member(m) => {
                let MemberExpr { obj, prop } = m;
                let ghost pv = prop_view(prop);
                assert(ev == ExprV::Member(Box::new(expr_view(*obj)), pv));
                let obj2 = self.fold_expr(*obj);
                let prop2 = match prop {
                    MemberProp::Computed(x) => {
                        assert(pv == MemberPropV::Computed(Box::new(expr_view(*x))));
                        let x2 = self.fold_expr(*x);
                        let p2 = MemberProp::Computed(Box::new(x2));
                        assert(prop_view(p2) == MemberPropV::Computed(Box::new(expr_view(x2))));
                        p2
                    },
                    MemberProp::Ident(i) => {
                        let p2 = MemberProp::Ident(i);
                        assert(prop_view(p2) == pv);
                        p2
                    },
                    MemberProp::PrivateName(s) => {
                        let p2 = MemberProp::PrivateName(s);
                        assert(prop_view(p2) == pv);
                        p2
                    },
                };
                let r = Expr::Member(MemberExpr { obj: Box::new(obj2), prop: prop2 });
                assert(expr_view(r) == ExprV::Member(Box::new(expr_view(obj2)), prop_view(prop2)));
                r
            },
            Expr::Call(c) => {
                let CallExpr { callee, args } = c;
                let ghost cv = callee_view(callee);
                assert(ev == ExprV::Call(cv, exprs_view(args)));
                let callee2 = match callee {
                    Callee::Expr(x) => {
                        assert(cv == CalleeV::Expr(Box::new(expr_view(*x))));
                        let x2 = self.fold_expr(*x);
                        let c2 = Callee::Expr(Box::new(x2));
                        assert(callee_view(c2) == CalleeV::Expr(Box::new(expr_view(x2))));
                        c2
                    },
                    Callee::Super => {
                        assert(callee_view(Callee::Super) == cv);
                        Callee::Super
                    },
                    Callee::Import => {
                        assert(callee_view(Callee::Import) == cv);
                        Callee::Import
                    },
                };
                let args2 = self.fold_exprs(args);
                let r = Expr::Call(CallExpr { callee: callee2, args: args2 });
                assert(expr_view(r) == ExprV::Call(callee_view(callee2), exprs_view(args2)));
                r
            },
            Expr::Function(body) => {
                assert(ev == ExprV::Function(stmts_view(body)));
                let b2 = self.fold_stmts(body);
                let r = Expr::Function(b2);
                assert(expr_view(r) == ExprV::Function(stmts_view(b2)));
                r
            },
            Expr::Lit(s) => {
                let r = Expr::Lit(s);
                assert(ev == expr_view(r));
                r
            },
            Expr::Compound(k, xs) => {
                assert(ev == ExprV::Compound(k@, exprs_view(xs)));
                let xs2 = self.fold_exprs(xs);
                let r = Expr::Compound(k, xs2);
                assert(expr_view(r) == ExprV::Compound(k@, exprs_view(xs2)));
                r
            },
            Expr::Other => {
                assert(ev == ExprV::Other);
                Expr::Other
            },
        }
    }

    /// Each expression of `v`, folded, in order.
    pub fn fold_exprs(&self, v: Vec<Expr>) -> (r: Vec<Expr>)
        ensures
            exprs_view(r) == fold_exprs_spec(self.exclude_view(), self.unresolved_ctxt, exprs_view(v)),
        decreases v,
    {
        let ghost orig = v;
        let mut rest = v;
        let mut out: Vec<Expr> = Vec::new();
        #[verifier::loop_isolation(false)]
        while rest.len() > 0
            invariant
                out@.len() + rest@.len() == orig@.len(),
                forall|j: int|
                    0 <= j < rest@.len() ==> #[trigger] rest@[j] == orig@[out@.len() + j],
                forall|j: int|
                    0 <= j < out@.len() ==> expr_view(#[trigger] out@[j]) == fold_expr_spec(
                        self.exclude_view(),
                        self.unresolved_ctxt,
                        expr_view(orig@[j]),
                    ),
            decreases rest@.len(),
        {
            let x = rest.remove(0);
            proof {
                assert(x == orig@[out@.len() as int]);
                assert(decreases_to!(orig => orig@));
                assert(decreases_to!(orig@ => orig@[out@.len() as int]));
            }
            let y = self.fold_expr(x);
            out.push(y);
        }
        let ghost a = exprs_view(out);
        let ghost b = fold_exprs_spec(self.exclude_view(), self.unresolved_ctxt, exprs_view(orig));
        assert(a =~= b);
        out
    }

    /// The module with removable console calls taken out, at any depth.
    pub fn fold_program(&self, program: Program) -> (r: Program)
        ensures
            r@ == fold_stmts_spec(self.exclude_view(), self.unresolved_ctxt, program@),
    {
        Program { body: self.fold_stmts(program.body) }
    }

    /// The plugin's transform hook on one module. It takes the module's
    /// syntax tree out, leaving an empty module in its place, and runs the
    /// pass built by `remove_console` with the module's unresolved context
    /// over the tree it took; the folded tree is not put back.
    pub fn transform(&self, program: &mut Program, unresolved_ctxt: u32)
        ensures
            final(program)@ == Seq::<StmtV>::empty(),
    {
        let mut ast = Program { body: Vec::new() };
        std::mem::swap(&mut ast, program);
        let pass = Self::remove_console(unresolved_ctxt);
        let _folded = pass.fold_program(ast);
        assert(program@ =~= Seq::<StmtV>::empty());
    }
}

} // verus!
