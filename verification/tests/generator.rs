//! The generator pass, with a lowering that wraps bodies.

use std::cell::RefCell;

use perry::generator::{
    transform_generator_closures_in_stmts, transform_generators,
    transform_plain_async_closure_body, Lowered, LoweringRequest,
};
use perry::hir::{
    Accessor, CatchClause, Class, ClosureHead, Expr, Function, Module, Param, Stmt, SwitchCase,
};

fn closure(func_id: u32, is_generator: bool, body: Vec<Stmt>, operands: Vec<Expr>) -> Expr {
    Expr::Closure {
        head: ClosureHead {
            func_id,
            params: vec![Param { id: func_id + 100, is_rest: true }],
            captures: vec![1, 2],
            mutable_captures: vec![2],
            captures_this: true,
            enclosing_class: Some("C".to_string()),
            is_strict: true,
            is_async: true,
            is_generator,
        },
        body,
        operands,
    }
}

fn leaf(tag: u64) -> Stmt {
    Stmt::Other(tag)
}

fn function(id: u32, is_generator: bool, body: Vec<Stmt>) -> Function {
    Function {
        id,
        name: format!("f{}", id),
        params: Vec::new(),
        body,
        is_strict: false,
        is_async: false,
        is_generator,
        is_exported: true,
        captures: Vec::new(),
        was_plain_async: false,
        was_unrolled: false,
    }
}

fn expr_text(e: &Expr) -> String {
    match e {
        Expr::Closure { head, body, operands } => {
            let operands: Vec<String> = operands.iter().map(expr_text).collect();
            format!(
                "{}{}{}({};{})",
                if head.is_generator { "*" } else { "" },
                if head.is_async { "a" } else { "" },
                head.func_id,
                text(body),
                operands.join(",")
            )
        }
        Expr::Other { tag, operands } => {
            let operands: Vec<String> = operands.iter().map(expr_text).collect();
            format!("e{}[{}]", tag, operands.join(","))
        }
    }
}

fn stmt_text(s: &Stmt) -> String {
    let opt = |e: &Option<Expr>| e.as_ref().map(expr_text).unwrap_or_default();
    match s {
        Stmt::Let { id, init } => format!("let{}={}", id, opt(init)),
        Stmt::Expr(e) => expr_text(e),
        Stmt::Throw(e) => format!("throw {}", expr_text(e)),
        Stmt::Return(e) => format!("return {}", opt(e)),
        Stmt::If { condition, then_branch, else_branch } => format!(
            "if {} {{{}}} {}",
            expr_text(condition),
            text(then_branch),
            else_branch.as_ref().map(|b| text(b)).unwrap_or("-".to_string())
        ),
        Stmt::While { condition, body } => {
            format!("while {} {{{}}}", expr_text(condition), text(body))
        }
        Stmt::DoWhile { body, condition } => {
            format!("do {{{}}} {}", text(body), expr_text(condition))
        }
        Stmt::For { init, condition, update, body } => format!(
            "for {} {} {} {{{}}}",
            init.as_ref().map(|s| stmt_text(s)).unwrap_or_default(),
            opt(condition),
            opt(update),
            text(body)
        ),
        Stmt::Try { body, catch, finally } => format!(
            "try {{{}}} {} {}",
            text(body),
            catch.as_ref().map(|c| text(&c.body)).unwrap_or("-".to_string()),
            finally.as_ref().map(|b| text(b)).unwrap_or("-".to_string())
        ),
        Stmt::Switch { discriminant, cases } => {
            let cases: Vec<String> =
                cases.iter().map(|c| format!("{}:{}", opt(&c.test), text(&c.body))).collect();
            format!("switch {} {}", expr_text(discriminant), cases.join("|"))
        }
        Stmt::Labeled { label, body } => format!("{}: {}", label, stmt_text(body)),
        Stmt::Other(tag) => format!("s{}", tag),
    }
}

fn text(stmts: &[Stmt]) -> String {
    stmts.iter().map(stmt_text).collect::<Vec<_>>().join(" ")
}

/// Appends a statement to the body, and uses one identifier of each sort.
fn wrap(mut request: LoweringRequest) -> Lowered {
    request.function.body.push(leaf(900 + request.function.id as u64));
    request.function.is_generator = false;
    Lowered {
        function: request.function,
        next_local_id: request.next_local_id + 1,
        next_func_id: request.next_func_id + 1,
    }
}

#[test]
fn code_without_generators_is_left_alone() {
    let asked = RefCell::new(0);
    let lower = |request: LoweringRequest| -> Lowered {
        *asked.borrow_mut() += 1;
        wrap(request)
    };
    let (mut local, mut func) = (10, 20);
    let code = vec![leaf(1), Stmt::Expr(closure(5, false, vec![leaf(2)], Vec::new()))];
    let before = text(&code);
    let after = transform_generator_closures_in_stmts(code, &mut local, &mut func, &lower);
    assert_eq!(text(&after), before);
    assert_eq!((local, func), (10, 20));
    assert_eq!(*asked.borrow(), 0);
}

#[test]
fn inner_generators_are_lowered_before_outer_ones() {
    let asked = RefCell::new(Vec::new());
    let lower = |request: LoweringRequest| -> Lowered {
        let extra = request.extra.as_ref().unwrap();
        assert_eq!(extra.captures, vec![1, 2]);
        assert_eq!(extra.mutable_captures, vec![2]);
        assert!(extra.captures_this);
        assert_eq!(extra.enclosing_class.as_deref(), Some("C"));
        assert_eq!(request.function.name, "__gen_closure_body");
        assert!(request.function.is_generator && request.function.is_async);
        assert!(request.function.is_strict && !request.function.is_exported);
        asked.borrow_mut().push((
            request.function.id,
            request.function.params[0].id,
            text(&request.function.body),
            request.next_local_id,
            request.next_func_id,
        ));
        wrap(request)
    };
    let (mut local, mut func) = (10, 20);
    let inner = closure(1, true, vec![leaf(1)], Vec::new());
    let outer = closure(2, true, vec![Stmt::Return(Some(inner))], Vec::new());
    let after = transform_generator_closures_in_stmts(
        vec![Stmt::Expr(outer)],
        &mut local,
        &mut func,
        &lower,
    );
    assert_eq!(text(&after), "2(return 1(s1 s920;) s922;)");
    assert_eq!(
        *asked.borrow(),
        vec![
            (20, 101, "s1".to_string(), 10, 21),
            (22, 102, "return 1(s1 s920;)".to_string(), 11, 23),
        ]
    );
    assert_eq!((local, func), (12, 24));
}

#[test]
fn every_part_of_a_statement_is_visited_in_order() {
    let gen = |id| closure(id, true, Vec::new(), Vec::new());
    let asked = RefCell::new(Vec::new());
    let lower = |request: LoweringRequest| -> Lowered {
        asked.borrow_mut().push(request.function.params[0].id - 100);
        wrap(request)
    };
    let code = vec![
        Stmt::Let { id: 1, init: Some(gen(1)) },
        Stmt::Throw(gen(2)),
        Stmt::Return(Some(gen(3))),
        Stmt::If {
            condition: gen(4),
            then_branch: vec![Stmt::Expr(gen(5))],
            else_branch: Some(vec![Stmt::Expr(gen(6))]),
        },
        Stmt::While { condition: gen(7), body: vec![Stmt::Expr(gen(8))] },
        Stmt::DoWhile { body: vec![Stmt::Expr(gen(10))], condition: gen(9) },
        Stmt::For {
            init: Some(Box::new(Stmt::Expr(gen(11)))),
            condition: Some(gen(12)),
            update: Some(gen(13)),
            body: vec![Stmt::Expr(gen(14))],
        },
        Stmt::Try {
            body: vec![Stmt::Expr(gen(15))],
            catch: Some(CatchClause { param: Some(3), body: vec![Stmt::Expr(gen(16))] }),
            finally: Some(vec![Stmt::Expr(gen(17))]),
        },
        Stmt::Switch {
            discriminant: gen(18),
            cases: vec![
                SwitchCase { test: Some(gen(19)), body: vec![Stmt::Expr(gen(20))] },
                SwitchCase { test: None, body: vec![Stmt::Expr(gen(21))] },
            ],
        },
        Stmt::Labeled { label: "l".to_string(), body: Box::new(Stmt::Expr(gen(22))) },
        Stmt::Expr(Expr::Other { tag: 1, operands: vec![gen(23), gen(24)] }),
        Stmt::Expr(closure(26, false, vec![Stmt::Expr(gen(25))], vec![gen(26)])),
    ];
    let (mut local, mut func) = (0, 1000);
    let after = transform_generator_closures_in_stmts(code, &mut local, &mut func, &lower);
    assert_eq!(*asked.borrow(), (1..=26).collect::<Vec<u32>>());
    assert!(!text(&after).contains('*'));
    assert_eq!((local, func), (26, 1052));
}

#[test]
fn deep_nesting_needs_no_deep_stack() {
    let mut expr = closure(0, true, Vec::new(), Vec::new());
    for _ in 0..2_000 {
        expr = Expr::Other { tag: 0, operands: vec![expr] };
    }
    let (mut local, mut func) = (0, 0);
    let after = transform_generator_closures_in_stmts(
        vec![Stmt::Expr(expr)],
        &mut local,
        &mut func,
        &wrap,
    );
    assert_eq!((local, func), (1, 2));
    assert!(text(&after).contains("s900"));
}

#[test]
fn async_closure_bodies_become_one_request() {
    let lower = |request: LoweringRequest| -> Lowered {
        assert_eq!(request.function.id, 7);
        assert_eq!(request.next_func_id, 8);
        assert_eq!(request.function.name, "__async_closure_body");
        assert!(request.function.was_plain_async);
        assert!(request.function.is_generator && !request.function.is_async);
        let extra = request.extra.as_ref().unwrap();
        assert_eq!(extra.captures, vec![4]);
        assert!(extra.mutable_captures.is_empty());
        wrap(request)
    };
    let (mut local, mut func) = (3, 7);
    let body = transform_plain_async_closure_body(
        vec![leaf(1)],
        &[Param { id: 9, is_rest: false }],
        &[4],
        &[],
        false,
        None,
        true,
        &mut local,
        &mut func,
        &lower,
    );
    assert_eq!(text(&body), "s1 s907");
    assert_eq!((local, func), (4, 9));
}

#[test]
fn modules_are_lowered_functions_first() {
    let gen = |id| closure(id, true, Vec::new(), Vec::new());
    let asked = RefCell::new(Vec::new());
    let lower = |request: LoweringRequest| -> Lowered {
        asked.borrow_mut().push((request.function.name.clone(), request.extra.is_some()));
        wrap(request)
    };
    let method = |id| function(id, false, vec![Stmt::Expr(gen(id))]);
    let mut module = Module {
        functions: vec![
            function(1, true, vec![Stmt::Expr(gen(1))]),
            function(2, false, Vec::new()),
            function(3, true, Vec::new()),
        ],
        init: vec![Stmt::Expr(gen(4))],
        classes: vec![Class {
            constructor: Some(method(5)),
            methods: vec![method(6)],
            static_methods: vec![method(7)],
            getters: vec![Accessor { name: "g".to_string(), function: method(8) }],
            setters: vec![Accessor { name: "s".to_string(), function: method(9) }],
        }],
    };
    transform_generators(&mut module, 50, 60, &lower);
    let names: Vec<(String, bool)> = asked.into_inner();
    assert_eq!(names.len(), 9);
    assert_eq!(names[0], ("f1".to_string(), false));
    assert_eq!(names[1], ("f3".to_string(), false));
    assert!(names[2..].iter().all(|n| n == &("__gen_closure_body".to_string(), true)));
    // A lowered function uses one identifier, and a closure two.
    assert_eq!(text(&module.functions[0].body), "1( s963;) s901".replace("( ", "("));
    assert_eq!(text(&module.functions[2].body), "s903");
    assert_eq!(text(&module.init), "4(s965;)");
    let class = &module.classes[0];
    assert_eq!(text(&class.constructor.as_ref().unwrap().body), "5(s967;)");
    assert_eq!(text(&class.methods[0].body), "6(s969;)");
    assert_eq!(text(&class.static_methods[0].body), "7(s971;)");
    assert_eq!(text(&class.getters[0].function.body), "8(s973;)");
    assert_eq!(text(&class.setters[0].function.body), "9(s975;)");
}

#[test]
fn class_members_that_are_generators_are_lowered() {
    let gen = |id| closure(id, true, Vec::new(), Vec::new());
    let asked = RefCell::new(Vec::new());
    let lower = |request: LoweringRequest| -> Lowered {
        asked.borrow_mut().push((
            request.function.name.clone(),
            request.function.id,
            request.extra.is_some(),
        ));
        wrap(request)
    };
    let member = |id| function(id, true, vec![Stmt::Expr(gen(id))]);
    let mut module = Module {
        functions: Vec::new(),
        init: Vec::new(),
        classes: vec![Class {
            constructor: Some(function(1, false, vec![leaf(1)])),
            methods: vec![member(2), function(3, false, vec![leaf(3)])],
            static_methods: vec![member(4)],
            getters: vec![Accessor { name: "g".to_string(), function: member(5) }],
            setters: vec![Accessor { name: "s".to_string(), function: member(6) }],
        }],
    };
    transform_generators(&mut module, 50, 60, &lower);
    let class = &module.classes[0];
    let members = [
        class.constructor.as_ref().unwrap(),
        &class.methods[0],
        &class.methods[1],
        &class.static_methods[0],
        &class.getters[0].function,
        &class.setters[0].function,
    ];
    assert!(members.iter().all(|f| !f.is_generator));
    assert!(members.iter().all(|f| !text(&f.body).contains('*')));
    assert_eq!(class.getters[0].name, "g");
    assert_eq!(class.setters[0].name, "s");
    // Each member is lowered before the closure in its body; the identifiers of
    // the closures rise.
    let closure = "__gen_closure_body".to_string();
    assert_eq!(
        *asked.borrow(),
        vec![
            ("f2".to_string(), 2, false),
            (closure.clone(), 62, true),
            ("f4".to_string(), 4, false),
            (closure.clone(), 65, true),
            ("f5".to_string(), 5, false),
            (closure.clone(), 68, true),
            ("f6".to_string(), 6, false),
            (closure, 71, true),
        ]
    );
    assert_eq!(text(&class.constructor.as_ref().unwrap().body), "s1");
    assert_eq!(text(&class.methods[0].body), "2(s962;) s902");
    assert_eq!(text(&class.methods[1].body), "s3");
    assert_eq!(text(&class.static_methods[0].body), "4(s965;) s904");
}

#[test]
fn modules_without_generators_are_left_alone() {
    let asked = RefCell::new(0);
    let lower = |request: LoweringRequest| -> Lowered {
        *asked.borrow_mut() += 1;
        wrap(request)
    };
    let mut module = Module {
        functions: vec![function(1, false, vec![leaf(1)])],
        init: vec![leaf(2)],
        classes: vec![Class {
            constructor: None,
            methods: vec![function(3, false, vec![leaf(3)])],
            static_methods: Vec::new(),
            getters: Vec::new(),
            setters: Vec::new(),
        }],
    };
    transform_generators(&mut module, 50, 60, &lower);
    assert_eq!(*asked.borrow(), 0);
    assert_eq!(text(&module.functions[0].body), "s1");
    assert_eq!(text(&module.init), "s2");
    assert_eq!(text(&module.classes[0].methods[0].body), "s3");
}
