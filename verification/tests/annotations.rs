use starlark_typing::matcher::{TypeCompiled, TypingError};
use starlark_typing::values::{OpaqueValue, RtValue};

fn s(x: &str) -> RtValue {
    RtValue::Str(x.to_owned())
}

fn list(es: Vec<RtValue>) -> RtValue {
    RtValue::List(es)
}

#[test]
fn matcher_round_trip() {
    // Compiling ["int", "str"] and testing 1, "x", True.
    let annot = list(vec![s("int"), s("string")]);
    let m = TypeCompiled::new(&annot).unwrap();
    assert!(m.matches(&RtValue::Int(1)));
    assert!(m.matches(&s("x")));
    assert!(!m.matches(&RtValue::Bool(true)));
}

#[test]
fn wildcard_matches_everything() {
    let m = TypeCompiled::new(&s("")).unwrap();
    assert!(m.matches(&RtValue::NoneV));
    assert!(m.matches(&list(vec![RtValue::Int(3)])));
    assert!(m.matches(&RtValue::Dict(vec![(s("k"), RtValue::Int(1))])));
    assert!(m.matches(&RtValue::Opaque(OpaqueValue {
        rt_type: "function".to_owned(),
        type_attr: None,
    })));
    let under = TypeCompiled::new(&s("_a")).unwrap();
    assert!(under.matches(&list(vec![RtValue::Int(1), s("test")])));
}

#[test]
fn dict_annotation_validity() {
    // A two-entry dictionary is not a valid annotation.
    let bad = RtValue::Dict(vec![(RtValue::Int(1), s("a")), (RtValue::Int(2), s("b"))]);
    match TypeCompiled::new(&bad) {
        Err(TypingError::InvalidTypeAnnotation(_)) => {}
        other => panic!("expected an invalid-annotation error, got {:?}", other),
    }
    // {str: int} matches {"k": 1} but not {"k": "v"} or {1: 1}.
    let annot = RtValue::Dict(vec![(s("string"), s("int"))]);
    let m = TypeCompiled::new(&annot).unwrap();
    assert!(m.matches(&RtValue::Dict(vec![(s("k"), RtValue::Int(1))])));
    assert!(!m.matches(&RtValue::Dict(vec![(s("k"), s("v"))])));
    assert!(!m.matches(&RtValue::Dict(vec![(RtValue::Int(1), RtValue::Int(1))])));
}

#[test]
fn call_time_mismatch_message() {
    // Checking 1 against the annotation "bool" for the parameter i yields
    // exactly one error naming the value, its type, the annotation and the
    // parameter, and checking completes without an abort.
    let r = RtValue::Int(1).check_type(&s("bool"), Some("i"));
    let e = r.unwrap_err();
    let msg = e.message();
    assert_eq!(
        msg,
        "Value `1` of type `int` does not match the type annotation `bool` for argument `i`"
    );
    // The same value against "int" passes.
    assert!(RtValue::Int(1).check_type(&s("int"), Some("i")).is_ok());
    // A return-type check names the return type.
    let e2 = RtValue::NoneV.check_type(&s("bool"), None).unwrap_err();
    assert!(e2.message().contains("for return type"));
}

#[test]
fn two_alternative_fast_path_agrees_with_general() {
    // The two-element fast path and the general any-of matcher must answer
    // identically on every value.
    let fast = TypeCompiled::new(&list(vec![s("int"), s("string")])).unwrap();
    let m1 = TypeCompiled::new(&s("int")).unwrap();
    let m2 = TypeCompiled::new(&s("string")).unwrap();
    let general = TypeCompiled::AnyOf(vec![m1, m2]);
    for v in [
        RtValue::Int(7),
        s("x"),
        RtValue::Bool(false),
        RtValue::NoneV,
        list(vec![RtValue::Int(1)]),
        RtValue::Dict(vec![]),
    ] {
        assert_eq!(fast.matches(&v), general.matches(&v));
    }
}

#[test]
fn test_types() {
    // The annotation forms and the values they accept.
    assert!(RtValue::Int(1).is_type(&s("int")).unwrap());
    assert!(RtValue::Bool(true).is_type(&s("bool")).unwrap());
    assert!(RtValue::Bool(true).is_type(&s("")).unwrap());
    assert!(RtValue::NoneV.is_type(&RtValue::NoneV).unwrap());
    let func = RtValue::Opaque(OpaqueValue {
        rt_type: "function".to_owned(),
        type_attr: None,
    });
    assert!(func.is_type(&s("function")).unwrap());
    assert!(list(vec![]).is_type(&list(vec![s("int")])).unwrap());
    assert!(list(vec![]).is_type(&list(vec![s("")])).unwrap());
    assert!(list(vec![RtValue::Int(1), RtValue::Int(2), RtValue::Int(3)])
        .is_type(&list(vec![s("int")]))
        .unwrap());
    assert!(RtValue::NoneV
        .is_type(&list(vec![RtValue::NoneV, s("int")]))
        .unwrap());
    assert!(s("test").is_type(&list(vec![s("int"), s("string")])).unwrap());
    assert!(RtValue::Tuple(vec![s("test"), RtValue::NoneV])
        .is_type(&RtValue::Tuple(vec![s("string"), RtValue::NoneV]))
        .unwrap());
    assert!(RtValue::Dict(vec![(s("test"), RtValue::Int(1)), (s("more"), RtValue::Int(2))])
        .is_type(&RtValue::Dict(vec![(s("string"), s("int"))]))
        .unwrap());
    assert!(RtValue::Dict(vec![(RtValue::Int(1), RtValue::Int(1))])
        .is_type(&RtValue::Dict(vec![(s("int"), s("int"))]))
        .unwrap());

    assert!(!RtValue::Int(1).is_type(&RtValue::NoneV).unwrap());
    assert!(!RtValue::Tuple(vec![RtValue::Int(1), RtValue::Int(1)])
        .is_type(&s("string"))
        .unwrap());
    assert!(!s("test").is_type(&list(vec![s("int"), s("bool")])).unwrap());
    assert!(!list(vec![RtValue::Int(1), RtValue::Int(2), RtValue::NoneV])
        .is_type(&list(vec![s("int")]))
        .unwrap());
    assert!(!RtValue::Dict(vec![(s("test"), RtValue::Int(1)), (RtValue::Int(8), RtValue::Int(2))])
        .is_type(&RtValue::Dict(vec![(s("string"), s("int"))]))
        .unwrap());

    assert!(RtValue::Int(1).is_type(&s("")).unwrap());
    assert!(list(vec![RtValue::Int(1), RtValue::Int(2), s("test")])
        .is_type(&list(vec![s("_a")]))
        .unwrap());

    // Invalid annotations are errors, not mismatches.
    let callable = RtValue::Opaque(OpaqueValue {
        rt_type: "function".to_owned(),
        type_attr: None,
    });
    assert!(matches!(
        RtValue::NoneV.is_type(&callable),
        Err(TypingError::InvalidTypeAnnotation(_))
    ));
    assert!(matches!(
        RtValue::NoneV.is_type(&list(vec![])),
        Err(TypingError::InvalidTypeAnnotation(_))
    ));
    assert!(matches!(
        RtValue::NoneV.is_type(&RtValue::Dict(vec![
            (s("1"), s("")),
            (s("2"), s("")),
        ])),
        Err(TypingError::InvalidTypeAnnotation(_))
    ));
    // A constructor value with a .type attribute earns the quoting hint.
    let ctor = RtValue::Opaque(OpaqueValue {
        rt_type: "function".to_owned(),
        type_attr: Some("bool".to_owned()),
    });
    let e = RtValue::NoneV.is_type(&ctor).unwrap_err();
    assert!(e.message().contains("Perhaps you meant `\"bool\"`?"));
}
