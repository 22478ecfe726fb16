use wasm_interop::dispatch::{func, BaseFunc, Func, FuncValue};

fn eval_base(f: BaseFunc, x: f64) -> f64 {
    match f {
        BaseFunc::Sin => x.sin(),
        BaseFunc::Cos => x.cos(),
        BaseFunc::Tan => x.tan(),
    }
}

fn eval(v: FuncValue, x: f64) -> f64 {
    match v {
        FuncValue::Base(b) => eval_base(b, x),
        FuncValue::Reciprocal(b) => 1.0 / eval_base(b, x),
    }
}

#[test]
fn resolves_every_selector() {
    assert_eq!(func(Func::Sin), FuncValue::Base(BaseFunc::Sin));
    assert_eq!(func(Func::Cos), FuncValue::Base(BaseFunc::Cos));
    assert_eq!(func(Func::Tan), FuncValue::Base(BaseFunc::Tan));
    assert_eq!(func(Func::Csc), FuncValue::Reciprocal(BaseFunc::Sin));
    assert_eq!(func(Func::Sec), FuncValue::Reciprocal(BaseFunc::Cos));
    assert_eq!(func(Func::Cot), FuncValue::Reciprocal(BaseFunc::Tan));
}

#[test]
fn dispatched_calls_match_direct_calls() {
    for x in [-2.0f64, -0.5, 0.25, 1.0, 3.0] {
        assert_eq!(eval(func(Func::Sin), x), x.sin());
        assert_eq!(eval(func(Func::Cos), x), x.cos());
        assert_eq!(eval(func(Func::Tan), x), x.tan());
        assert_eq!(eval(func(Func::Csc), x), 1.0 / x.sin());
        assert_eq!(eval(func(Func::Sec), x), 1.0 / x.cos());
        assert_eq!(eval(func(Func::Cot), x), 1.0 / x.tan());
    }
}

#[test]
fn reciprocal_identities() {
    for x in [-2.0f64, -0.5, 0.25, 1.0, 3.0] {
        assert!((eval(func(Func::Csc), x) * x.sin() - 1.0).abs() < 1e-12);
        assert!((eval(func(Func::Sec), x) * x.cos() - 1.0).abs() < 1e-12);
        assert!((eval(func(Func::Cot), x) * x.tan() - 1.0).abs() < 1e-12);
    }
}

#[test]
fn csc_of_zero_sine_is_infinite() {
    let v = eval(func(Func::Csc), 0.0);
    assert!(v.is_infinite());
}
