use starlark_typing::ty::{Approximation, Ty};
use starlark_typing::display::ty_to_str;
use starlark_typing::oracle::OracleSimple;

#[test]
fn unions_of_nothing_is_never() {
    assert!(matches!(Ty::unions(vec![]), Ty::Never));
}

#[test]
fn unions_is_idempotent_and_commutative() {
    let a = Ty::unions(vec![Ty::int_ty(), Ty::string(), Ty::int_ty()]);
    let b = Ty::unions(vec![Ty::string(), Ty::int_ty()]);
    assert_eq!(ty_to_str(&a), ty_to_str(&b));
    let single = Ty::unions(vec![Ty::string()]);
    assert_eq!(ty_to_str(&single), "str.type");
}

#[test]
fn unions_absorption() {
    assert!(matches!(Ty::unions(vec![Ty::Any, Ty::int_ty()]), Ty::Any));
    let t = Ty::unions(vec![Ty::Never, Ty::int_ty()]);
    assert_eq!(ty_to_str(&t), "int.type");
}

#[test]
fn unions_structural_merge() {
    let t = Ty::unions(vec![Ty::list(Ty::int_ty()), Ty::list(Ty::string())]);
    assert_eq!(ty_to_str(&t), "[[int.type, str.type]]");
    let d = Ty::unions(vec![
        Ty::dict(Ty::int_ty(), Ty::string()),
        Ty::dict(Ty::string(), Ty::string()),
    ]);
    assert_eq!(ty_to_str(&d), "{[int.type, str.type]: str.type}");
}

#[test]
fn indexing() {
    let tup = Ty::tuple2(Ty::int_ty(), Ty::string());
    assert_eq!(ty_to_str(&tup.clone().indexed(0)), "int.type");
    assert!(matches!(tup.indexed(5), Ty::Never));
    assert_eq!(ty_to_str(&Ty::list(Ty::bool()).indexed(7)), "bool.type");
}

#[test]
fn intersection_permissive() {
    let o = OracleSimple::new();
    for t in [Ty::int_ty(), Ty::list(Ty::string()), Ty::name("whatever")] {
        assert!(Ty::Any.intersects(&t, &o));
        assert!(Ty::Never.intersects(&t, &o));
        assert!(t.intersects(&Ty::Any, &o));
        assert!(t.intersects(&Ty::Never, &o));
    }
}

#[test]
fn names_and_display() {
    assert_eq!(Ty::name("unknown").as_name(), Some("unknown"));
    assert_eq!(Ty::list(Ty::Any).as_name(), Some("list"));
    assert_eq!(ty_to_str(&Ty::none()), "None");
    assert_eq!(ty_to_str(&Ty::tuple2(Ty::int_ty(), Ty::bool())), "(int.type, bool.type)");
    let a = Approximation::new("category", "message".to_owned());
    assert_eq!(a.to_str(), "Approximation: category = message");
}
