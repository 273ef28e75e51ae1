use farm_plugins::js_ast::{CallExpr, Callee, Expr, Ident, MemberExpr, MemberProp, Program, Stmt};
use farm_plugins::remove_console::{Options, RemoveConsole, RemoveConsoleConfig, EMPTY_CTXT};

fn ident(sym: &str, ctxt: u32) -> Ident {
    Ident { sym: sym.to_string(), ctxt }
}

fn console_call(method: &str, ctxt: u32) -> Expr {
    Expr::Call(CallExpr {
        callee: Callee::Expr(Box::new(Expr::Member(MemberExpr {
            obj: Box::new(Expr::Ident(ident("console", ctxt))),
            prop: MemberProp::Ident(ident(method, 0)),
        }))),
        args: vec![Expr::Lit("\"hi\"".to_string())],
    })
}

fn call_stmt(e: Expr) -> Stmt {
    Stmt::Expr(Box::new(e))
}

fn is_empty(s: &Stmt) -> bool {
    matches!(s, Stmt::Empty)
}

fn is_call(s: &Stmt) -> bool {
    matches!(s, Stmt::Expr(e) if matches!(**e, Expr::Call(_)))
}

// The plugin is set up from `{"exclude": ["error"]}`: console.log goes,
// console.error stays.
#[test]
fn test() {
    let config = RemoveConsoleConfig::WithOptions(Options { exclude: vec!["error".to_string()] });
    let plugin = RemoveConsole::new(Some(config));
    assert_eq!(plugin.exclude, vec!["error".to_string()]);
    assert_eq!(plugin.unresolved_ctxt, EMPTY_CTXT);
    let program = Program {
        body: vec![call_stmt(console_call("log", EMPTY_CTXT)), call_stmt(console_call("error", EMPTY_CTXT))],
    };
    let out = plugin.fold_program(program);
    assert_eq!(out.body.len(), 2);
    assert!(is_empty(&out.body[0]));
    assert!(is_call(&out.body[1]));
}

#[test]
fn remove_console_plugin_name() {
    assert_eq!(RemoveConsole::new(None).name(), "RemoveConsole");
}

#[test]
fn truthy_follows_the_config() {
    assert!(RemoveConsoleConfig::All(true).truthy());
    assert!(!RemoveConsoleConfig::All(false).truthy());
    assert!(RemoveConsoleConfig::WithOptions(Options { exclude: vec![] }).truthy());
}

#[test]
fn new_without_object_excludes_nothing() {
    assert!(RemoveConsole::new(None).exclude.is_empty());
    assert!(RemoveConsole::new(Some(RemoveConsoleConfig::All(false))).exclude.is_empty());
    assert!(RemoveConsole::new(Some(RemoveConsoleConfig::All(true))).exclude.is_empty());
}

#[test]
fn shadowed_console_is_kept() {
    let plugin = RemoveConsole::remove_console(7);
    let program = Program {
        body: vec![call_stmt(console_call("log", 3)), call_stmt(console_call("log", 7))],
    };
    let out = plugin.fold_program(program);
    assert!(is_call(&out.body[0]));
    assert!(is_empty(&out.body[1]));
}

#[test]
fn computed_property_is_kept() {
    let plugin = RemoveConsole::remove_console(0);
    let call = CallExpr {
        callee: Callee::Expr(Box::new(Expr::Member(MemberExpr {
            obj: Box::new(Expr::Ident(ident("console", 0))),
            prop: MemberProp::Computed(Box::new(Expr::Lit("\"log\"".to_string()))),
        }))),
        args: vec![],
    };
    assert!(!plugin.should_remove_call(&call));
    let private = CallExpr {
        callee: Callee::Expr(Box::new(Expr::Member(MemberExpr {
            obj: Box::new(Expr::Ident(ident("console", 0))),
            prop: MemberProp::PrivateName("log".to_string()),
        }))),
        args: vec![],
    };
    assert!(!plugin.should_remove_call(&private));
}

#[test]
fn other_objects_and_callees_are_kept() {
    let plugin = RemoveConsole::remove_console(0);
    let logger = CallExpr {
        callee: Callee::Expr(Box::new(Expr::Member(MemberExpr {
            obj: Box::new(Expr::Ident(ident("logger", 0))),
            prop: MemberProp::Ident(ident("log", 0)),
        }))),
        args: vec![],
    };
    assert!(!plugin.should_remove_call(&logger));
    let plain = CallExpr { callee: Callee::Expr(Box::new(Expr::Ident(ident("console", 0)))), args: vec![] };
    assert!(!plugin.should_remove_call(&plain));
    let sup = CallExpr { callee: Callee::Super, args: vec![] };
    assert!(!plugin.should_remove_call(&sup));
}

#[test]
fn nested_calls_are_removed_at_any_depth() {
    let plugin = RemoveConsole::remove_console(0);
    let inner_fn = Expr::Function(vec![call_stmt(console_call("warn", 0)), Stmt::Other]);
    let outer = Expr::Call(CallExpr {
        callee: Callee::Expr(Box::new(Expr::Ident(ident("setTimeout", 0)))),
        args: vec![inner_fn],
    });
    let program = Program {
        body: vec![
            call_stmt(outer),
            Stmt::Block(vec![call_stmt(console_call("info", 0))]),
            Stmt::If(
                Box::new(Expr::Other),
                Box::new(call_stmt(console_call("log", 0))),
                Some(Box::new(Stmt::Block(vec![call_stmt(console_call("debug", 0))]))),
            ),
            Stmt::Return(Some(Box::new(Expr::Other))),
        ],
    };
    let out = plugin.fold_program(program);
    assert_eq!(out.body.len(), 4);
    match &out.body[0] {
        Stmt::Expr(e) => match &**e {
            Expr::Call(c) => match &c.args[0] {
                Expr::Function(body) => {
                    assert!(is_empty(&body[0]));
                    assert!(matches!(body[1], Stmt::Other));
                },
                _ => panic!("argument changed kind"),
            },
            _ => panic!("call changed kind"),
        },
        _ => panic!("statement changed kind"),
    }
    match &out.body[1] {
        Stmt::Block(v) => assert!(is_empty(&v[0])),
        _ => panic!("block changed kind"),
    }
    match &out.body[2] {
        Stmt::If(_, c, Some(a)) => {
            assert!(is_empty(c));
            match &**a {
                Stmt::Block(v) => assert!(is_empty(&v[0])),
                _ => panic!("else changed kind"),
            }
        },
        _ => panic!("if changed kind"),
    }
    assert!(matches!(out.body[3], Stmt::Return(Some(_))));
}

#[test]
fn removal_twice_is_removal_once() {
    let plugin = RemoveConsole::remove_console(0);
    let make = || Program {
        body: vec![
            call_stmt(console_call("log", 0)),
            Stmt::Block(vec![call_stmt(console_call("error", 0)), Stmt::Other]),
            call_stmt(console_call("log", 1)),
        ],
    };
    let once = plugin.fold_program(make());
    let twice = plugin.fold_program(plugin.fold_program(make()));
    assert_eq!(once.body.len(), twice.body.len());
    assert!(is_empty(&once.body[0]) && is_empty(&twice.body[0]));
    match (&once.body[1], &twice.body[1]) {
        (Stmt::Block(a), Stmt::Block(b)) => {
            assert!(is_empty(&a[0]) && is_empty(&b[0]));
            assert!(matches!(a[1], Stmt::Other) && matches!(b[1], Stmt::Other));
        },
        _ => panic!("block changed kind"),
    }
    assert!(is_call(&once.body[2]) && is_call(&twice.body[2]));
}

#[test]
fn transform_takes_the_tree_out_of_the_module() {
    let plugin = RemoveConsole::new(Some(RemoveConsoleConfig::WithOptions(Options {
        exclude: vec!["error".to_string()],
    })));
    let mut program = Program { body: vec![call_stmt(console_call("error", 5)), Stmt::Other] };
    plugin.transform(&mut program, 5);
    assert!(program.body.is_empty());
}

#[test]
fn global_console_needs_the_unresolved_context() {
    let plugin = RemoveConsole::remove_console(9);
    assert!(plugin.is_global_console(&ident("console", 9)));
    assert!(!plugin.is_global_console(&ident("console", 8)));
    assert!(!plugin.is_global_console(&ident("consola", 9)));
}

#[test]
fn compound_nodes_are_searched_and_inner_calls_kept() {
    let plugin = RemoveConsole::remove_console(0);
    // for (;;) console.log(1);  a && console.log(2);  class C { m() { console.log(3) } }
    let for_loop = Stmt::Compound(
        "for".to_string(),
        vec![Expr::Other],
        vec![vec![call_stmt(console_call("log", 0))]],
    );
    let logical = call_stmt(Expr::Compound(
        "logical".to_string(),
        vec![Expr::Ident(ident("a", 0)), console_call("log", 0)],
    ));
    let class = Stmt::Compound(
        "class".to_string(),
        vec![Expr::Function(vec![call_stmt(console_call("log", 0))])],
        vec![],
    );
    let out = plugin.fold_program(Program { body: vec![for_loop, logical, class] });
    match &out.body[0] {
        Stmt::Compound(k, _, bodies) => {
            assert_eq!(k, "for");
            assert!(is_empty(&bodies[0][0]));
        },
        _ => panic!("loop changed kind"),
    }
    match &out.body[1] {
        Stmt::Expr(e) => match &**e {
            Expr::Compound(_, parts) => assert!(matches!(parts[1], Expr::Call(_))),
            _ => panic!("expression changed kind"),
        },
        _ => panic!("statement changed kind"),
    }
    match &out.body[2] {
        Stmt::Compound(_, parts, _) => match &parts[0] {
            Expr::Function(body) => assert!(is_empty(&body[0])),
            _ => panic!("method changed kind"),
        },
        _ => panic!("class changed kind"),
    }
}
