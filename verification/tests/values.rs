use liil::data::{MemData, Mess};
use liil::float;
use liil::path::Path;
use liil::variable::{Array, VarType};

#[test]
fn truthiness_table() {
    assert!(!VarType::Nzero.truthy());
    assert!(VarType::Bool(true).truthy());
    assert!(!VarType::Bool(false).truthy());
    assert!(VarType::Int(-3).truthy());
    assert!(!VarType::Int(0).truthy());
    assert!(VarType::Float(1.25f64.to_bits()).truthy());
    assert!(!VarType::Float(0.0f64.to_bits()).truthy());
    assert!(!VarType::Float((-0.0f64).to_bits()).truthy());
    assert!(VarType::Float(f64::NAN.to_bits()).truthy());
    assert!(VarType::String("x".to_string()).truthy());
    assert!(!VarType::String(String::new()).truthy());
    assert!(!VarType::Tuple(Array { items: vec![] }).truthy());
    assert!(VarType::Tuple(Array { items: vec![VarType::Nzero] }).truthy());
    assert!(VarType::Ref(0).truthy());
}

#[test]
fn rendering_scalars() {
    assert_eq!(VarType::Nzero.to_string(), "N0");
    assert_eq!(VarType::Bool(true).to_string(), "true");
    assert_eq!(VarType::Int(-42).to_string(), "-42");
    assert_eq!(VarType::Int(0).to_string(), "0");
    assert_eq!(VarType::Int(i64::MIN).to_string(), i64::MIN.to_string());
    assert_eq!(VarType::String("hi".to_string()).to_string(), "hi");
    assert_eq!(VarType::Ref(7).to_string(), "<ref 7>");
    let t = VarType::Tuple(Array { items: vec![VarType::Int(1), VarType::Int(2)] });
    assert_eq!(t.to_string(), "(1, 2)");
}

#[test]
fn rendering_floats_depends_on_the_value() {
    let a = VarType::Float(3.5f64.to_bits()).to_string();
    let b = VarType::Float(2.5f64.to_bits()).to_string();
    assert!(!a.is_empty());
    assert_ne!(a, b);
    let c = VarType::Float(3.5f64.to_bits()).to_string();
    assert_eq!(a, c);
}

#[test]
fn record_keys_are_overwritten_in_place() {
    let mut m = Mess::new();
    let k = "key".to_string();
    assert!(!m.has(&k));
    assert!(m.get(&k).is_none());
    m.set(&k, VarType::Int(1));
    m.set(&k, VarType::Int(2));
    assert!(m.has(&k));
    match m.get(&k).unwrap() {
        VarType::Int(i) => assert_eq!(i, 2),
        other => panic!("expected an Int, got {:?}", other),
    }
    assert_eq!(m.members.len(), 1);
}

#[test]
fn array_string_keys_are_decimal_indices() {
    let mut a = Array { items: vec![VarType::Int(10), VarType::Int(20)] };
    assert!(a.has(&"0".to_string()));
    assert!(a.has(&"+1".to_string()));
    assert!(!a.has(&"2".to_string()));
    assert!(!a.has(&"x".to_string()));
    assert!(!a.has(&"".to_string()));
    assert!(!a.has(&"1.5".to_string()));
    match a.get(&"1".to_string()).unwrap() {
        VarType::Int(i) => assert_eq!(i, 20),
        other => panic!("expected an Int, got {:?}", other),
    }
    assert!(a.set(&"0".to_string(), VarType::Int(99)));
    assert!(!a.set(&"7".to_string(), VarType::Int(0)));
    match a.get(&"0".to_string()).unwrap() {
        VarType::Int(i) => assert_eq!(i, 99),
        other => panic!("expected an Int, got {:?}", other),
    }
}

#[test]
fn keyed_writes_on_composites() {
    let mut d = MemData::Mess(Mess::new());
    assert!(d.set(&"k".to_string(), VarType::Int(1)).is_ok());
    match d.get(&"k".to_string()) {
        VarType::Int(i) => assert_eq!(i, 1),
        other => panic!("expected an Int, got {:?}", other),
    }
    match d.get(&"absent".to_string()) {
        VarType::Nzero => (),
        other => panic!("expected Nzero, got {:?}", other),
    }
    let mut arr = MemData::Array(Array { items: vec![VarType::Nzero] });
    assert!(arr.set(&"0".to_string(), VarType::Int(5)).is_ok());
    assert!(arr.set(&"9".to_string(), VarType::Int(5)).is_err());
    let node_err = {
        let mut g = liil::global::Global::new();
        let root = liil::global::Context::root(&mut g);
        let v = liil::node::NativeNode::as_vartype(
            &root,
            liil::node::NativeFunc::CpuOp,
            &mut g,
        );
        let h = match v {
            VarType::Ref(h) => h,
            other => panic!("expected a Ref, got {:?}", other),
        };
        g.heap[h].set(&"k".to_string(), VarType::Int(1)).is_err()
    };
    assert!(node_err);
}

#[test]
fn float_neighbors_are_bit_adjacent() {
    assert_eq!(float::f64_next_up_exec(1.0f64.to_bits()), 1.0f64.to_bits() + 1);
    assert_eq!(float::f64_next_down_exec(1.0f64.to_bits()), 1.0f64.to_bits() - 1);
    assert_eq!(float::f64_next_up_exec(0.0f64.to_bits()), 1u64);
    assert_eq!(
        float::f64_next_down_exec(0.0f64.to_bits()),
        (-0.0f64).to_bits() + 1,
    );
    let nan = f64::NAN.to_bits();
    assert_eq!(float::f64_next_up_exec(nan), nan);
    assert_eq!(float::f64_next_up_exec(f64::INFINITY.to_bits()), f64::INFINITY.to_bits());
}

#[test]
fn float_comparisons_match_hardware() {
    let vals: Vec<f64> = vec![0.0, -0.0, 1.0, -1.0, 2.5, f64::NAN, f64::INFINITY,
        f64::NEG_INFINITY, 1e-308];
    for &x in &vals {
        for &y in &vals {
            assert_eq!(float::f64_lt_exec(x.to_bits(), y.to_bits()), x < y);
            assert_eq!(float::f64_le_exec(x.to_bits(), y.to_bits()), x <= y);
            assert_eq!(float::f64_eq_exec(x.to_bits(), y.to_bits()), x == y);
        }
    }
}

#[test]
fn duplicate_is_structural() {
    let v = VarType::Tuple(Array {
        items: vec![VarType::Int(1), VarType::String("s".to_string()), VarType::Ref(3)],
    });
    let w = v.duplicate();
    assert_eq!(v.to_string(), w.to_string());
}

#[test]
fn paths_tidy_dots() {
    assert_eq!(Path::new("a/b/../c").to_string(), "a/c");
    assert_eq!(Path::new("a/./b").to_string(), "a/b");
    assert_eq!(Path::new("a\\b").to_string(), "a/b");
    assert_eq!(Path::new("../x").to_string(), "../x");
    assert_eq!(Path::new("a/b/c").parent().to_string(), "a/b");
}

#[test]
fn paths_relative_and_rendered() {
    let base = Path::new("lib/sub");
    let rel = base.relative(&Path::new("mod"));
    assert_eq!(rel.to_string(), "lib/sub/mod");
    let here = Path::new("a/b/c");
    let other = Path::new("a/x");
    assert_eq!(here.relative_to(&other).to_string(), "../b/c");
    assert_eq!(Path::new("a//b").as_std_path(), "/a/b");
    assert_eq!(Path::new("c:/d").as_std_path(), "/c:\\/d");
    assert_eq!(liil::module::Module::code_path(&"m".to_string()), "m.lIIl");
    assert_eq!(
        liil::module::Module::builtin_path(&"cpu".to_string()),
        "<module>/cpu",
    );
}
