use starlark_typing::ast::Span;
use starlark_typing::display::ty_to_str;
use starlark_typing::ty::{Approximation, Ty};
use starlark_typing::type_expr::{GlobalTypeValue, TypeExprNode, TypeExprU, TypeGlobal};

fn te(node: TypeExprNode) -> TypeExprU {
    TypeExprU { span: Span { begin: 0, end: 0 }, node }
}

#[test]
fn literal_annotations() {
    let mut approx: Vec<Approximation> = Vec::new();
    let t = Ty::from_type_expr(&te(TypeExprNode::LiteralT("int".to_owned())), &mut approx);
    assert_eq!(ty_to_str(&t), "int.type");
    let w = Ty::from_type_expr(&te(TypeExprNode::LiteralT("".to_owned())), &mut approx);
    assert!(matches!(w, Ty::Any));
    let l = Ty::from_type_expr(&te(TypeExprNode::LiteralT("list".to_owned())), &mut approx);
    assert_eq!(ty_to_str(&l), "[\"\"]");
    assert_eq!(approx.len(), 0);
}

#[test]
fn structural_annotations() {
    let mut approx: Vec<Approximation> = Vec::new();
    let t = Ty::from_type_expr(
        &te(TypeExprNode::AnyOfT(vec![
            te(TypeExprNode::LiteralT("int".to_owned())),
            te(TypeExprNode::LiteralT("string".to_owned())),
        ])),
        &mut approx,
    );
    assert_eq!(ty_to_str(&t), "[int.type, str.type]");
    let d = Ty::from_type_expr(
        &te(TypeExprNode::Index2T(
            TypeGlobal { name: "dict".to_owned(), resolved: Some(GlobalTypeValue::DictBuiltin) },
            Box::new((
                te(TypeExprNode::LiteralT("string".to_owned())),
                te(TypeExprNode::LiteralT("int".to_owned())),
            )),
        )),
        &mut approx,
    );
    assert_eq!(ty_to_str(&d), "{str.type: int.type}");
    assert_eq!(approx.len(), 0);
}

#[test]
fn unknown_globals_degrade_with_an_approximation() {
    let mut approx: Vec<Approximation> = Vec::new();
    let g = TypeGlobal { name: "made_up".to_owned(), resolved: None };
    let t = Ty::from_type_expr(&te(TypeExprNode::PathT(g, vec![])), &mut approx);
    assert!(matches!(t, Ty::Any));
    assert_eq!(approx.len(), 1);
    assert_eq!(approx[0].category, "Unknown type");
    // g.type names the global's type; str spells string.
    let s = Ty::from_type_expr(
        &te(TypeExprNode::PathT(
            TypeGlobal { name: "str".to_owned(), resolved: Some(GlobalTypeValue::OpaqueGlobal) },
            vec!["type".to_owned()],
        )),
        &mut approx,
    );
    assert_eq!(ty_to_str(&s), "str.type");
    assert_eq!(approx.len(), 1);
}
