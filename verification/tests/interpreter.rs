use std::rc::Rc;

use liil::expr::{
    AddExpr, CompareOp, CompareExpr, Expr, IdentifierExpr, MemberExpr, ModExpr, NodeCallExpr,
    NotExpr, TupleExpr,
};
use liil::global::{Context, Global};
use liil::rng::Rng;
use liil::statement::{
    AssStatement, ExprStatement, LValue, LoliStatement, NodeDefStatement, ReturnStatement,
    RmStatement, Statement, Statements,
};
use liil::variable::VarType;

const FUEL: u64 = 1_000_000;

fn setup() -> (Global, Rng, Context) {
    let mut g = Global::new();
    let root = Context::root(&mut g);
    (g, Rng::new(0x5eed), root)
}

fn lit_i(i: i64) -> Expr {
    Expr::literal(VarType::Int(i))
}

fn lit_f(f: f64) -> Expr {
    Expr::literal(VarType::Float(f.to_bits()))
}

fn lit_s(s: &str) -> Expr {
    Expr::literal(VarType::String(s.to_string()))
}

fn ident(name: &str) -> Expr {
    Expr::Identifier(IdentifierExpr { name: name.to_string() })
}

fn add(l: Expr, r: Expr) -> Expr {
    Expr::Add(AddExpr { lhs: Box::new(l), rhs: Box::new(r) })
}

fn assign(name: &str, rhs: Expr) -> Statement {
    Statement::Ass(AssStatement {
        lhs: LValue::Identifier(name.to_string()),
        rhs,
        op: CompareOp::Equal,
    })
}

fn expect_int(v: &VarType) -> i64 {
    match v {
        VarType::Int(i) => *i,
        other => panic!("expected an Int, got {:?}", other),
    }
}

fn expect_float(v: &VarType) -> f64 {
    match v {
        VarType::Float(b) => f64::from_bits(*b),
        other => panic!("expected a Float, got {:?}", other),
    }
}

#[test]
fn promotion_int_plus_float() {
    let (mut g, mut rng, root) = setup();
    let e = add(lit_i(1), lit_f(2.5));
    let v = e.eval(&mut g, &mut rng, root, FUEL).unwrap();
    assert_eq!(expect_float(&v), 3.5);
}

#[test]
fn promotion_int_plus_int() {
    let (mut g, mut rng, root) = setup();
    let v = add(lit_i(1), lit_i(2)).eval(&mut g, &mut rng, root, FUEL).unwrap();
    assert_eq!(expect_int(&v), 3);
}

#[test]
fn string_coercion_both_sides() {
    let (mut g, mut rng, root) = setup();
    let v = add(lit_s("a"), lit_i(1)).eval(&mut g, &mut rng, root, FUEL).unwrap();
    match v {
        VarType::String(s) => assert_eq!(s, "a1"),
        other => panic!("expected a String, got {:?}", other),
    }
    let v = add(lit_i(1), lit_s("a")).eval(&mut g, &mut rng, root, FUEL).unwrap();
    match v {
        VarType::String(s) => assert_eq!(s, "1a"),
        other => panic!("expected a String, got {:?}", other),
    }
}

#[test]
fn float_arithmetic_matches_hardware() {
    let (mut g, mut rng, root) = setup();
    let cases: Vec<(f64, f64)> = vec![(3.0, 4.0), (0.1, 0.2), (1.0, 3.0), (-2.5, 7.25)];
    for (x, y) in cases {
        let v = add(lit_f(x), lit_f(y)).eval(&mut g, &mut rng, root, FUEL).unwrap();
        assert_eq!(expect_float(&v).to_bits(), (x + y).to_bits());
        let m = Expr::Mod(ModExpr {
            lhs: Box::new(lit_f(x)),
            rhs: Box::new(lit_f(y)),
        });
        let v = m.eval(&mut g, &mut rng, root, FUEL).unwrap();
        assert_eq!(expect_float(&v).to_bits(), (x % y).to_bits());
    }
}

#[test]
fn integer_division_truncates() {
    let (mut g, mut rng, root) = setup();
    let div = |l: i64, r: i64, g: &mut Global, rng: &mut Rng| -> i64 {
        let e = Expr::Div(liil::expr::DivExpr {
            lhs: Box::new(lit_i(l)),
            rhs: Box::new(lit_i(r)),
        });
        expect_int(&e.eval(g, rng, root, FUEL).unwrap())
    };
    assert_eq!(div(7, 2, &mut g, &mut rng), 3);
    assert_eq!(div(-7, 2, &mut g, &mut rng), -3);
    assert_eq!(div(7, -2, &mut g, &mut rng), -3);
    assert_eq!(div(-7, -2, &mut g, &mut rng), 3);
}

#[test]
fn division_by_zero_is_an_error() {
    let (mut g, mut rng, root) = setup();
    let e = Expr::Div(liil::expr::DivExpr {
        lhs: Box::new(lit_i(1)),
        rhs: Box::new(lit_i(0)),
    });
    assert!(e.eval(&mut g, &mut rng, root, FUEL).is_err());
}

#[test]
fn type_mismatch_is_an_error() {
    let (mut g, mut rng, root) = setup();
    let e = add(lit_i(1), Expr::literal(VarType::Bool(true)));
    assert!(e.eval(&mut g, &mut rng, root, FUEL).is_err());
    let unknown = ident("missing").eval(&mut g, &mut rng, root, FUEL);
    assert!(unknown.is_err());
}

#[test]
fn comparisons_follow_promotion() {
    let (mut g, mut rng, root) = setup();
    let cmp = |op: CompareOp, l: Expr, r: Expr, g: &mut Global, rng: &mut Rng| -> bool {
        let e = Expr::Cmp(CompareExpr { lhs: Box::new(l), rhs: Box::new(r), op });
        match e.eval(g, rng, root, FUEL).unwrap() {
            VarType::Bool(b) => b,
            other => panic!("expected a Bool, got {:?}", other),
        }
    };
    assert!(cmp(CompareOp::Less, lit_i(1), lit_f(1.5), &mut g, &mut rng));
    assert!(cmp(CompareOp::Equal, lit_i(2), lit_f(2.0), &mut g, &mut rng));
    assert!(cmp(CompareOp::Less, lit_s("abc"), lit_s("abd"), &mut g, &mut rng));
    assert!(!cmp(CompareOp::Less, lit_s("b"), lit_s("abd"), &mut g, &mut rng));
    assert!(cmp(CompareOp::GreaterEqual, lit_i(3), lit_i(3), &mut g, &mut rng));
}

#[test]
fn scoping_assign_unbound_is_local() {
    let (mut g, _rng, root) = setup();
    let inner = Context::new(&root, &mut g);
    inner.set_symbol(&mut g, &"x".to_string(), VarType::Int(5));
    assert_eq!(expect_int(&inner.get_symbol(&g, &"x".to_string()).unwrap()), 5);
    assert!(root.get_symbol(&g, &"x".to_string()).is_none());
}

#[test]
fn scoping_assign_bound_mutates_ancestor() {
    let (mut g, _rng, root) = setup();
    root.set_symbol(&mut g, &"x".to_string(), VarType::Int(1));
    let child = Context::new(&root, &mut g);
    let sibling = Context::new(&root, &mut g);
    child.set_symbol(&mut g, &"x".to_string(), VarType::Int(2));
    assert_eq!(expect_int(&root.get_symbol(&g, &"x".to_string()).unwrap()), 2);
    assert_eq!(expect_int(&sibling.get_symbol(&g, &"x".to_string()).unwrap()), 2);
    assert!(!matches!(child.get_symbol(&g, &"x".to_string()), None));
}

#[test]
fn neighbor_assignment_floats() {
    let (mut g, mut rng, root) = setup();
    let st = Statement::Ass(AssStatement {
        lhs: LValue::Identifier("x".to_string()),
        rhs: lit_f(1.0),
        op: CompareOp::Greater,
    });
    st.exec(&mut g, &mut rng, root, FUEL).unwrap();
    let stored = expect_float(&root.get_symbol(&g, &"x".to_string()).unwrap());
    assert!(stored > 1.0);
    assert_eq!(stored.to_bits(), 1.0f64.to_bits() + 1);
}

#[test]
fn neighbor_assignment_int_saturates() {
    let (mut g, mut rng, root) = setup();
    let st = Statement::Ass(AssStatement {
        lhs: LValue::Identifier("x".to_string()),
        rhs: lit_i(i64::MIN),
        op: CompareOp::Less,
    });
    st.exec(&mut g, &mut rng, root, FUEL).unwrap();
    assert_eq!(expect_int(&root.get_symbol(&g, &"x".to_string()).unwrap()), i64::MIN);
    assert_eq!(liil::statement::next_down_i64(i64::MIN), i64::MIN);
    assert_eq!(liil::statement::next_up_i64(i64::MAX), i64::MAX);
    assert_eq!(liil::statement::next_up_i64(4), 5);
}

#[test]
fn wobble_never_returns_its_input() {
    let (mut g, mut rng, root) = setup();
    for k in 0..200u64 {
        let input = (k as i64).wrapping_mul(0x9e37) ^ 11;
        match NotExpr::not(&root, &mut rng, VarType::Int(input)).unwrap() {
            VarType::Int(w) => assert_ne!(w, input),
            other => panic!("expected an Int, got {:?}", other),
        }
    }
    for k in 0..200u64 {
        let input = (k as f64) / 17.0;
        match NotExpr::not(&root, &mut rng, VarType::Float(input.to_bits())).unwrap() {
            VarType::Float(w) => {
                let w = f64::from_bits(w);
                assert_ne!(w, input);
                assert!((0.0..1.0).contains(&w));
            },
            other => panic!("expected a Float, got {:?}", other),
        }
    }
    match NotExpr::not(&root, &mut rng, VarType::Bool(true)).unwrap() {
        VarType::Bool(b) => assert!(!b),
        other => panic!("expected a Bool, got {:?}", other),
    }
    match NotExpr::not(&root, &mut rng, VarType::Nzero).unwrap() {
        VarType::Int(w) => assert_ne!(w, 0),
        other => panic!("expected an Int, got {:?}", other),
    }
    match NotExpr::not(&root, &mut rng, VarType::String("x".to_string())).unwrap() {
        VarType::String(s) => assert_eq!(s, "!x"),
        other => panic!("expected a String, got {:?}", other),
    }
    let _ = g;
}

#[test]
fn member_access_soft_read() {
    let (mut g, mut rng, root) = setup();
    // A record on the heap, reachable from a binding.
    let h = g.heap.len();
    g.heap.push(liil::data::MemData::Mess(liil::data::Mess::new()));
    root.set_symbol(&mut g, &"obj".to_string(), VarType::Ref(h));
    // Reading a missing key yields Nzero, never an error.
    let read = Expr::Member(MemberExpr {
        lhs: Box::new(ident("missing")),
        rhs: Box::new(ident("obj")),
    });
    match read.eval(&mut g, &mut rng, root, FUEL).unwrap() {
        VarType::Nzero => (),
        other => panic!("expected Nzero, got {:?}", other),
    }
    // Writing a missing key on a record succeeds and is readable after.
    let write = MemberExpr { lhs: Box::new(ident("k")), rhs: Box::new(ident("obj")) };
    write.set(&mut g, &mut rng, root, VarType::Int(9), FUEL).unwrap();
    let read = Expr::Member(MemberExpr {
        lhs: Box::new(ident("k")),
        rhs: Box::new(ident("obj")),
    });
    assert_eq!(expect_int(&read.eval(&mut g, &mut rng, root, FUEL).unwrap()), 9);
    // Writing a missing key on an array is an error; reading one is Nzero.
    let ah = g.heap.len();
    g.heap.push(liil::data::MemData::Array(liil::variable::Array {
        items: vec![VarType::Int(1)],
    }));
    root.set_symbol(&mut g, &"arr".to_string(), VarType::Ref(ah));
    let bad = MemberExpr { lhs: Box::new(lit_i(4)), rhs: Box::new(ident("arr")) };
    assert!(bad.set(&mut g, &mut rng, root, VarType::Int(0), FUEL).is_err());
    let soft = Expr::Member(MemberExpr {
        lhs: Box::new(lit_i(4)),
        rhs: Box::new(ident("arr")),
    });
    match soft.eval(&mut g, &mut rng, root, FUEL).unwrap() {
        VarType::Nzero => (),
        other => panic!("expected Nzero, got {:?}", other),
    }
    let ok = Expr::Member(MemberExpr {
        lhs: Box::new(lit_i(0)),
        rhs: Box::new(ident("arr")),
    });
    assert_eq!(expect_int(&ok.eval(&mut g, &mut rng, root, FUEL).unwrap()), 1);
}

fn node_def(name: &str, args: &[&str], body: Vec<Statement>) -> Statement {
    Statement::NodeDef(NodeDefStatement {
        name: name.to_string(),
        args: args.iter().map(|a| a.to_string()).collect(),
        body: Rc::new(Statement::Stmts(Statements { stmts: body })),
    })
}

fn call(node: Expr, args: Expr) -> Expr {
    Expr::NodeCall(NodeCallExpr { node: Box::new(node), args: Box::new(args) })
}

#[test]
fn end_to_end_add_node() {
    let (mut g, mut rng, root) = setup();
    let def = node_def(
        "add",
        &["a", "b"],
        vec![Statement::Ret(ReturnStatement { value: add(ident("a"), ident("b")) })],
    );
    def.exec(&mut g, &mut rng, root, FUEL).unwrap();
    let args = Expr::Tuple(TupleExpr { values: vec![lit_i(3), lit_i(4)] });
    let v = call(ident("add"), args).eval(&mut g, &mut rng, root, FUEL).unwrap();
    assert_eq!(expect_int(&v), 7);
    let args = Expr::Tuple(TupleExpr { values: vec![lit_f(3.0), lit_i(4)] });
    let v = call(ident("add"), args).eval(&mut g, &mut rng, root, FUEL).unwrap();
    assert_eq!(expect_float(&v), 7.0);
}

#[test]
fn closure_resolves_in_defining_scope() {
    let (mut g, mut rng, root) = setup();
    // A maker node binds y locally and returns an inner node reading y.
    let maker = node_def(
        "make",
        &[],
        vec![
            assign("y", lit_i(42)),
            node_def(
                "inner",
                &[],
                vec![Statement::Ret(ReturnStatement { value: ident("y") })],
            ),
            Statement::Ret(ReturnStatement { value: ident("inner") }),
        ],
    );
    maker.exec(&mut g, &mut rng, root, FUEL).unwrap();
    let got = assign("f", call(ident("make"), Expr::Tuple(TupleExpr { values: vec![] })));
    got.exec(&mut g, &mut rng, root, FUEL).unwrap();
    // y is not bound at the call site, yet the closure still sees it.
    assert!(root.get_symbol(&g, &"y".to_string()).is_none());
    let v = call(ident("f"), Expr::Tuple(TupleExpr { values: vec![] }))
        .eval(&mut g, &mut rng, root, FUEL)
        .unwrap();
    assert_eq!(expect_int(&v), 42);
}

#[test]
fn too_many_arguments_is_an_error() {
    let (mut g, mut rng, root) = setup();
    let def = node_def("one", &["a"], vec![Statement::Ret(ReturnStatement {
        value: ident("a"),
    })]);
    def.exec(&mut g, &mut rng, root, FUEL).unwrap();
    let args = Expr::Tuple(TupleExpr { values: vec![lit_i(1), lit_i(2)] });
    assert!(call(ident("one"), args).eval(&mut g, &mut rng, root, FUEL).is_err());
    // Fewer arguments than formals leaves the trailing formals unbound.
    let def = node_def("two", &["a", "b"], vec![Statement::Ret(ReturnStatement {
        value: ident("a"),
    })]);
    def.exec(&mut g, &mut rng, root, FUEL).unwrap();
    let args = Expr::Tuple(TupleExpr { values: vec![lit_i(5)] });
    let v = call(ident("two"), args).eval(&mut g, &mut rng, root, FUEL).unwrap();
    assert_eq!(expect_int(&v), 5);
}

#[test]
fn import_is_idempotent() {
    let (mut g, mut rng, root) = setup();
    let rm = RmStatement { path: "cpu".to_string(), parent_path: liil::path::Path::new("") };
    rm.exec(&mut g, &mut rng, root, FUEL).unwrap();
    let first = match root.get_symbol(&g, &"cpu".to_string()).unwrap() {
        VarType::Ref(h) => h,
        other => panic!("expected a Ref, got {:?}", other),
    };
    let heap_after_first = g.heap.len();
    let ctxs_after_first = g.ctxs.len();
    rm.exec(&mut g, &mut rng, root, FUEL).unwrap();
    // The second import runs no constructor: nothing new on the heap, and
    // the binding still points at the same record.
    assert_eq!(g.heap.len(), heap_after_first);
    assert_eq!(g.ctxs.len(), ctxs_after_first);
    let second = match root.get_symbol(&g, &"cpu".to_string()).unwrap() {
        VarType::Ref(h) => h,
        other => panic!("expected a Ref, got {:?}", other),
    };
    assert_eq!(first, second);
}

#[test]
fn exhausted_budget_is_an_error() {
    let (mut g, mut rng, root) = setup();
    let forever = Statement::Loli(LoliStatement {
        cond: lit_i(1),
        body: Box::new(Statement::Stmts(Statements { stmts: vec![] })),
    });
    assert!(forever.exec(&mut g, &mut rng, root, 64).is_err());
}

#[test]
fn wobble_on_nan_stays_in_the_unit_interval() {
    let (_g, mut rng, root) = setup();
    match NotExpr::not(&root, &mut rng, VarType::Float(f64::NAN.to_bits())).unwrap() {
        VarType::Float(w) => {
            let w = f64::from_bits(w);
            assert!((0.0..1.0).contains(&w));
        },
        other => panic!("expected a Float, got {:?}", other),
    }
}

#[test]
fn file_module_import_runs_the_supplied_body() {
    let (mut g, mut rng, root) = setup();
    // The host supplies a parsed body for the path "lib/util.lIIl"; an
    // import of "util" from a module located at "lib" resolves to it.
    let body = Statement::Stmts(Statements {
        stmts: vec![assign("answer", lit_i(41)), assign("answer", add(ident("answer"), lit_i(1)))],
    });
    g.add_file_module("lib/util.lIIl".to_string(), Rc::new(body));
    let rm = RmStatement {
        path: "util".to_string(),
        parent_path: liil::path::Path::new("lib"),
    };
    rm.exec(&mut g, &mut rng, root, FUEL).unwrap();
    // The import bound the module record under its name; the record holds
    // the module's bindings.
    let h = match root.get_symbol(&g, &"util".to_string()).unwrap() {
        VarType::Ref(h) => h,
        other => panic!("expected a Ref, got {:?}", other),
    };
    match &g.heap[h] {
        liil::data::MemData::Mess(m) => {
            assert_eq!(expect_int(&m.get(&"answer".to_string()).unwrap()), 42);
            assert!(matches!(
                m.get(&"isMian".to_string()).unwrap(),
                VarType::Bool(false)
            ));
        },
        other => panic!("expected a record, got {:?}", other),
    }
    // Re-importing is memoized: nothing new is built.
    let heap_len = g.heap.len();
    rm.exec(&mut g, &mut rng, root, FUEL).unwrap();
    assert_eq!(g.heap.len(), heap_len);
}

#[test]
fn parameters_bind_in_the_call_scope() {
    let (mut g, mut rng, root) = setup();
    // A formal named like a binding in the captured chain shadows it for
    // the call without mutating it.
    root.set_symbol(&mut g, &"x".to_string(), VarType::Int(10));
    let def = node_def("probe", &["x"], vec![Statement::Ret(ReturnStatement {
        value: ident("x"),
    })]);
    def.exec(&mut g, &mut rng, root, FUEL).unwrap();
    let args = Expr::Tuple(TupleExpr { values: vec![lit_i(99)] });
    let v = call(ident("probe"), args).eval(&mut g, &mut rng, root, FUEL).unwrap();
    assert_eq!(expect_int(&v), 99);
    assert_eq!(expect_int(&root.get_symbol(&g, &"x".to_string()).unwrap()), 10);
}

#[test]
fn error_messages_carry_the_operands() {
    let (mut g, mut rng, root) = setup();
    let e = add(lit_i(7), Expr::literal(VarType::Bool(true)));
    let err = e.eval(&mut g, &mut rng, root, FUEL).unwrap_err();
    assert!(err.desc.contains('7'));
    assert!(err.desc.contains("true"));
    let def = node_def("one", &["a"], vec![]);
    def.exec(&mut g, &mut rng, root, FUEL).unwrap();
    let args = Expr::Tuple(TupleExpr { values: vec![lit_i(1), lit_i(2), lit_i(3)] });
    let err = call(ident("one"), args).eval(&mut g, &mut rng, root, FUEL).unwrap_err();
    assert!(err.desc.contains('1'));
    assert!(err.desc.contains('3'));
}

#[test]
fn missing_module_is_an_error() {
    let (mut g, mut rng, root) = setup();
    let rm = RmStatement {
        path: "no_such_module".to_string(),
        parent_path: liil::path::Path::new(""),
    };
    let e = rm.exec(&mut g, &mut rng, root, FUEL);
    assert!(e.is_err());
}

#[test]
fn console_module_prints() {
    let (mut g, mut rng, root) = setup();
    let rm = RmStatement { path: "cpu".to_string(), parent_path: liil::path::Path::new("") };
    rm.exec(&mut g, &mut rng, root, FUEL).unwrap();
    // (1, "hi") cpu.wcop
    let callee = Expr::Member(MemberExpr {
        lhs: Box::new(ident("wcop")),
        rhs: Box::new(ident("cpu")),
    });
    let args = Expr::Tuple(TupleExpr { values: vec![lit_i(1), lit_s("hi")] });
    let v = call(callee, args).eval(&mut g, &mut rng, root, FUEL).unwrap();
    assert!(matches!(v, VarType::Nzero));
    assert_eq!(g.out.len(), 1);
    assert_eq!(g.out[0], "1 hi\n");
}

#[test]
fn assertion_module_checks_truthiness() {
    let (mut g, mut rng, root) = setup();
    liil::module::UtModule::register(&mut g.builtin_modules);
    let rm = RmStatement { path: "ut".to_string(), parent_path: liil::path::Path::new("") };
    rm.exec(&mut g, &mut rng, root, FUEL).unwrap();
    let callee = Expr::Member(MemberExpr {
        lhs: Box::new(ident("assert")),
        rhs: Box::new(ident("ut")),
    });
    let good = Expr::Tuple(TupleExpr { values: vec![lit_i(1)] });
    assert!(call(callee, good).eval(&mut g, &mut rng, root, FUEL).is_ok());
    let callee = Expr::Member(MemberExpr {
        lhs: Box::new(ident("assert")),
        rhs: Box::new(ident("ut")),
    });
    let bad = Expr::Tuple(TupleExpr { values: vec![lit_i(0)] });
    assert!(call(callee, bad).eval(&mut g, &mut rng, root, FUEL).is_err());
}

#[test]
fn conditional_runs_body_only_when_truthy() {
    let (mut g, mut rng, root) = setup();
    let hit = Statement::If(liil::statement::IfStatement {
        cond: lit_i(1),
        body: Box::new(assign("ran", lit_i(1))),
    });
    hit.exec(&mut g, &mut rng, root, FUEL).unwrap();
    assert_eq!(expect_int(&root.get_symbol(&g, &"ran".to_string()).unwrap()), 1);
    let miss = Statement::If(liil::statement::IfStatement {
        cond: Expr::literal(VarType::Nzero),
        body: Box::new(assign("skipped", lit_i(1))),
    });
    miss.exec(&mut g, &mut rng, root, FUEL).unwrap();
    assert!(root.get_symbol(&g, &"skipped".to_string()).is_none());
}

#[test]
fn probabilistic_statement_follows_the_draw() {
    // The sampler is deterministic per seed, so the hit/miss of one run is
    // checkable: probe the draw first, then run with an identical sampler.
    for seed in 0..8u64 {
        let mut probe = Rng::new(seed);
        let hit = probe.next_u64() & 1 == 1;
        let mut g = Global::new();
        let root = Context::root(&mut g);
        let mut rng = Rng::new(seed);
        let st = Statement::Maybe(liil::statement::MaybeStatement {
            body: Box::new(assign("ran", lit_i(1))),
        });
        st.exec(&mut g, &mut rng, root, FUEL).unwrap();
        assert_eq!(root.get_symbol(&g, &"ran".to_string()).is_some(), hit);
    }
}

#[test]
fn loop_computes_gcd() {
    let (mut g, mut rng, root) = setup();
    let body = Statement::Stmts(Statements {
        stmts: vec![
            assign("t", ident("b")),
            assign(
                "b",
                Expr::Mod(ModExpr {
                    lhs: Box::new(ident("a")),
                    rhs: Box::new(ident("b")),
                }),
            ),
            assign("a", ident("t")),
        ],
    });
    let program = Statements {
        stmts: vec![
            assign("a", lit_i(48)),
            assign("b", lit_i(18)),
            Statement::Loli(LoliStatement { cond: ident("b"), body: Box::new(body) }),
        ],
    };
    program.exec(&mut g, &mut rng, root, FUEL).unwrap();
    assert_eq!(expect_int(&root.get_symbol(&g, &"a".to_string()).unwrap()), 6);
}

#[test]
fn that_binding_follows_expressions() {
    let (mut g, mut rng, root) = setup();
    let st = Statement::Expr(ExprStatement { value: add(lit_i(2), lit_i(3)) });
    st.exec(&mut g, &mut rng, root, FUEL).unwrap();
    assert_eq!(expect_int(&root.get_symbol(&g, &"that".to_string()).unwrap()), 5);
    // An Nzero result does not touch the binding.
    let st = Statement::Expr(ExprStatement { value: Expr::literal(VarType::Nzero) });
    st.exec(&mut g, &mut rng, root, FUEL).unwrap();
    assert_eq!(expect_int(&root.get_symbol(&g, &"that".to_string()).unwrap()), 5);
}

#[test]
fn module_run_yields_its_record() {
    let (mut g, mut rng, root) = setup();
    let mut module = liil::module::CodeModule::new(
        &"main".to_string(),
        &"/tmp/main".to_string(),
        &root,
        true,
        &mut g,
    );
    module.stmts.push(assign("v", lit_i(11)));
    let ret = module.exec(&mut g, &mut rng, FUEL).unwrap();
    let h = match ret {
        VarType::Ref(h) => h,
        other => panic!("expected a Ref, got {:?}", other),
    };
    match &g.heap[h] {
        liil::data::MemData::Mess(m) => {
            let v = m.get(&"v".to_string()).unwrap();
            assert_eq!(expect_int(&v), 11);
            let mian = m.get(&"isMian".to_string()).unwrap();
            assert!(matches!(mian, VarType::Bool(true)));
        },
        other => panic!("expected a record, got {:?}", other),
    }
}

#[test]
fn sampler_is_deterministic_per_seed() {
    let mut a = Rng::new(7);
    let mut b = Rng::new(7);
    assert_eq!(a.next_u64(), b.next_u64());
    assert_eq!(a.next_u64(), b.next_u64());
    let mut c = Rng::new(8);
    let _ = Rng::from_entropy();
    assert_ne!(Rng::new(7).next_u64(), c.next_u64());
}
