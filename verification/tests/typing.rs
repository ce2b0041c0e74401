use starlark_typing::ast::{Argument, BinOp, BindExpr, BindingId, Expr, ExprKind, GlobalRef, Ident, Lit, ResolvedIdent, Span};
use starlark_typing::ctx::{Bindings, TypingContext};
use starlark_typing::display::ty_to_str;
use starlark_typing::oracle::{OracleDocs, OracleSimple, TypingAttr, TypingBinOp};
use starlark_typing::ty::{Param, Ty};

fn sp() -> Span {
    Span { begin: 0, end: 0 }
}

fn ex(node: ExprKind) -> Expr {
    Expr { span: sp(), node }
}

fn slot(name: &str, id: u32) -> Expr {
    ex(ExprKind::Identifier(Ident {
        name: name.to_owned(),
        resolved: Some(ResolvedIdent::Slot(BindingId(id))),
    }))
}

fn global(name: &str) -> Expr {
    ex(ExprKind::Identifier(Ident {
        name: name.to_owned(),
        resolved: Some(ResolvedIdent::Global(GlobalRef { declared_ty: None })),
    }))
}

fn call(f: Expr, args: Vec<Expr>) -> Expr {
    ex(ExprKind::Call(
        Box::new(f),
        args.into_iter().map(Argument::Positional).collect(),
    ))
}

fn lit_int() -> Expr {
    ex(ExprKind::Literal(Lit::Int))
}

fn lit_str() -> Expr {
    ex(ExprKind::Literal(Lit::Str))
}

fn oracle() -> OracleSimple {
    let mut o = OracleSimple::new();
    for n in ["string", "int", "bool", "float", "NoneType", "list", "dict", "tuple"] {
        o.add_known(n);
    }
    o.add_attr(
        "string",
        TypingAttr::Regular("removeprefix".to_owned()),
        Ty::function(vec![Param::pos_only(Ty::string())], Ty::string()),
    );
    o.add_attr(
        "int",
        TypingAttr::BinOp(TypingBinOp::Add),
        Ty::function(vec![Param::pos_only(Ty::int_ty())], Ty::int_ty()),
    );
    o
}

fn docs() -> OracleDocs {
    let mut d = OracleDocs::new();
    d.add("hash", Ty::function(vec![Param::pos_only(Ty::string())], Ty::int_ty()));
    d.add("fail", Ty::function(vec![Param::args(Ty::Any)], Ty::Never));
    d.add("zip", Ty::function(vec![Param::args(Ty::Any)], Ty::list(Ty::Any)));
    d.add(
        "struct",
        Ty::ctor_function("struct", vec![Param::kwargs(Ty::Any)], Ty::name("struct")),
    );
    d.add("type", Ty::function(vec![Param::pos_only(Ty::Any)], Ty::string()));
    d
}

fn ctx_with(env: Vec<(u32, Ty)>) -> TypingContext<OracleSimple> {
    let mut b = Bindings::new();
    for (id, t) in env {
        b.set(BindingId(id), t);
    }
    TypingContext::new(oracle(), docs(), b)
}

#[test]
fn test_success() {
    // def foo(x: str.type) -> str.type; y = hash(foo("magic"))
    let foo = Ty::function(vec![Param::pos_or_name("x", Ty::string())], Ty::string());
    let mut ctx = ctx_with(vec![(0, foo)]);
    let e = call(global("hash"), vec![call(slot("foo", 0), vec![lit_str()])]);
    let t = ctx.expression_type(&e);
    assert_eq!(ty_to_str(&t), "int.type");
    assert_eq!(ctx.errors.len(), 0);
}

#[test]
fn test_failure() {
    // hash(1)
    let mut ctx = ctx_with(vec![]);
    let e = call(global("hash"), vec![lit_int()]);
    let _ = ctx.expression_type(&e);
    assert_eq!(ctx.errors.len(), 1);
}

#[test]
fn test_load() {
    // foo loaded with type [bool.type] -> str.type, applied to [].
    let foo = Ty::function(vec![Param::pos_or_name("x", Ty::list(Ty::bool()))], Ty::string());
    let mut ctx = ctx_with(vec![(0, foo)]);
    let res = call(slot("foo", 0), vec![ex(ExprKind::ListExpr(vec![]))]);
    let t = ctx.expression_type(&ex(ExprKind::ListExpr(vec![res])));
    assert_eq!(ctx.errors.len(), 0);
    assert_eq!(ty_to_str(&t), "[str.type]");
}

#[test]
fn test_false_negative() {
    // fail("...") types as Never without an error.
    let mut ctx = ctx_with(vec![]);
    let t = ctx.expression_type(&call(global("fail"), vec![lit_str()]));
    assert!(matches!(t, Ty::Never));
    assert_eq!(ctx.errors.len(), 0);
}

#[test]
fn test_type_kwargs() {
    // foo(**{1: "x"}) where foo takes **kwargs: keys must be strings.
    let foo = Ty::function(vec![Param::kwargs(Ty::Any)], Ty::none());
    let mut ctx = ctx_with(vec![(0, foo)]);
    let d = ex(ExprKind::DictExpr(vec![(lit_int(), lit_str())]));
    let e = ex(ExprKind::Call(
        Box::new(slot("foo", 0)),
        vec![Argument::KwArgs(d)],
    ));
    let _ = ctx.expression_type(&e);
    assert_eq!(ctx.errors.len(), 1);
}

#[test]
fn test_dot_type() {
    // def foo(x: list.type) -> bool.type: return type(x) == list.type
    let mut ctx = ctx_with(vec![(0, Ty::list(Ty::Any))]);
    let e = ex(ExprKind::Op(
        Box::new(call(global("type"), vec![slot("x", 0)])),
        BinOp::Equal,
        Box::new(lit_str()),
    ));
    let t = ctx.expression_type(&e);
    assert_eq!(ty_to_str(&t), "bool.type");
    assert_eq!(ctx.errors.len(), 0);
    // foo(True): a bool argument cannot fill the list parameter.
    let foo = Ty::function(vec![Param::pos_or_name("x", Ty::list(Ty::Any))], Ty::bool());
    let mut ctx2 = ctx_with(vec![(1, foo)]);
    let bad = call(slot("foo", 1), vec![ex(ExprKind::Identifier(Ident {
        name: "b".to_owned(),
        resolved: Some(ResolvedIdent::Slot(BindingId(2))),
    }))]);
    let mut ctx3 = ctx_with(vec![
        (1, Ty::function(vec![Param::pos_or_name("x", Ty::list(Ty::Any))], Ty::bool())),
        (2, Ty::bool()),
    ]);
    let _ = ctx2;
    let _ = ctx3.expression_type(&bad);
    assert_eq!(ctx3.errors.len(), 1);
}

#[test]
fn test_special_function_zip() {
    let mut ctx = ctx_with(vec![]);
    let mk = |e: Expr| ex(ExprKind::ListExpr(vec![e]));
    let t = ctx.expression_type(&call(
        global("zip"),
        vec![mk(lit_int()), mk(lit_str())],
    ));
    assert_eq!(ctx.errors.len(), 0);
    assert_eq!(ty_to_str(&t), "[\"\"]");
}

#[test]
fn test_special_function_struct() {
    let mut ctx = ctx_with(vec![]);
    let e = ex(ExprKind::Call(
        Box::new(global("struct")),
        vec![
            Argument::Named("a".to_owned(), lit_int()),
            Argument::Named("b".to_owned(), lit_str()),
        ],
    ));
    let t = ctx.expression_type(&e);
    assert_eq!(ctx.errors.len(), 0);
    assert_eq!(ty_to_str(&t), "\"struct\"");
}

#[test]
fn test_call_callable() {
    let mut ctx = ctx_with(vec![(0, Ty::name("function"))]);
    let _ = ctx.expression_type(&call(slot("x", 0), vec![]));
    assert_eq!(ctx.errors.len(), 0);
}

#[test]
fn test_call_not_callable() {
    let mut ctx = ctx_with(vec![(0, Ty::list(Ty::Any))]);
    let _ = ctx.expression_type(&call(slot("x", 0), vec![]));
    assert_eq!(ctx.errors.len(), 1);
}

#[test]
fn test_call_unknown() {
    let mut ctx = ctx_with(vec![(0, Ty::name("unknown"))]);
    let _ = ctx.expression_type(&call(slot("x", 0), vec![]));
    assert_eq!(ctx.errors.len(), 0);
}

#[test]
fn test_call_callable_or_not_callable() {
    let u = Ty::union2(Ty::name("function"), Ty::string());
    let mut ctx = ctx_with(vec![(0, u.clone()), (1, u)]);
    let _ = ctx.expression_type(&call(slot("x", 0), vec![]));
    let _ = ctx.expression_type(&call(slot("y", 1), vec![]));
    assert_eq!(ctx.errors.len(), 0);
}

#[test]
fn test_call_callable_or_unknown() {
    let u = Ty::union2(Ty::name("function"), Ty::name("unknown"));
    let mut ctx = ctx_with(vec![(0, u.clone()), (1, u)]);
    let _ = ctx.expression_type(&call(slot("x", 0), vec![]));
    let _ = ctx.expression_type(&call(slot("y", 1), vec![]));
    assert_eq!(ctx.errors.len(), 0);
}

#[test]
fn test_call_not_callable_or_unknown() {
    let u = Ty::union2(Ty::string(), Ty::name("unknown"));
    let mut ctx = ctx_with(vec![(0, u.clone()), (1, u)]);
    let _ = ctx.expression_type(&call(slot("x", 0), vec![]));
    let _ = ctx.expression_type(&call(slot("y", 1), vec![]));
    assert_eq!(ctx.errors.len(), 0);
}

#[test]
fn test_tuple() {
    let mut ctx = ctx_with(vec![]);
    let t = ctx.expression_type(&ex(ExprKind::Tuple(vec![])));
    assert_eq!(ty_to_str(&t), "()");
    assert_eq!(ctx.errors.len(), 0);
}

#[test]
fn test_test_new_syntax_without_dot_type() {
    // def foo(x: str): foo("test") is good, foo(1) is bad.
    let foo = Ty::function(vec![Param::pos_or_name("x", Ty::string())], Ty::none());
    let mut ctx = ctx_with(vec![(0, foo)]);
    let _ = ctx.expression_type(&call(slot("foo", 0), vec![lit_str()]));
    assert_eq!(ctx.errors.len(), 0);
    let _ = ctx.expression_type(&call(slot("foo", 0), vec![lit_int()]));
    assert_eq!(ctx.errors.len(), 1);
}

#[test]
fn test_calls() {
    // def f(y): extra parameter f(1, 2); not enough parameters f().
    let f = Ty::function(vec![Param::pos_or_name("y", Ty::Any)], Ty::none());
    let mut ctx = ctx_with(vec![(0, f)]);
    let _ = ctx.expression_type(&call(slot("f", 0), vec![lit_int(), lit_int()]));
    assert_eq!(ctx.errors.len(), 1);
    let _ = ctx.expression_type(&call(slot("f", 0), vec![]));
    assert_eq!(ctx.errors.len(), 2);
}

#[test]
fn test_list_append() {
    // x = []; x.append(1) and x.append("") refine the element type.
    let mut ctx = ctx_with(vec![(0, Ty::list(Ty::Never))]);
    let b = BindExpr::ListAppend(BindingId(0), Box::new(lit_int()));
    let t = ctx.expression_bind_type(&b);
    assert_eq!(ty_to_str(&t), "[int.type]");
    let b2 = BindExpr::ListAppend(BindingId(0), Box::new(lit_str()));
    let t2 = ctx.expression_bind_type(&b2);
    assert_eq!(ty_to_str(&t2), "[str.type]");
    let merged = Ty::union2(t, t2);
    assert_eq!(ty_to_str(&merged), "[[int.type, str.type]]");
    assert_eq!(ctx.errors.len(), 0);
}

#[test]
fn test_list_append_bug() {
    // x = []; x.append(x) still checks without an error.
    let mut ctx = ctx_with(vec![(0, Ty::list(Ty::Never))]);
    let b = BindExpr::ListAppend(BindingId(0), Box::new(slot("x", 0)));
    let t = ctx.expression_bind_type(&b);
    assert_eq!(ty_to_str(&t), "[[\"never\"]]");
    assert_eq!(ctx.errors.len(), 0);
}

#[test]
fn test_new_list_dict_syntax() {
    // def foo(x: dict[str, int]) -> list[str], applied to {"a": 1}.
    let foo = Ty::function(
        vec![Param::pos_or_name("x", Ty::dict(Ty::string(), Ty::int_ty()))],
        Ty::list(Ty::string()),
    );
    let mut ctx = ctx_with(vec![(0, foo)]);
    let d = ex(ExprKind::DictExpr(vec![(lit_str(), lit_int())]));
    let t = ctx.expression_type(&call(slot("foo", 0), vec![d]));
    assert_eq!(ctx.errors.len(), 0);
    assert_eq!(ty_to_str(&t), "[str.type]");
}

#[test]
fn test_int_plus_float() {
    // x = 1 + 1.0: no numeric promotion, the oracle's int.add wants int.
    let mut ctx = ctx_with(vec![]);
    let e = ex(ExprKind::Op(
        Box::new(lit_int()),
        BinOp::Add,
        Box::new(ex(ExprKind::Literal(Lit::Float))),
    ));
    let _ = ctx.expression_type(&e);
    assert_eq!(ctx.errors.len(), 1);
}

#[test]
fn unreachable_propagation() {
    // x = fail("boom"); y = x + 1: the call types as Never, and the outer
    // + on a Never operand is also Never, with no spurious operand error.
    let mut ctx = ctx_with(vec![]);
    let call_ty = ctx.expression_type(&call(global("fail"), vec![lit_str()]));
    assert!(matches!(call_ty, Ty::Never));
    let mut ctx2 = ctx_with(vec![(0, call_ty)]);
    let e = ex(ExprKind::Op(
        Box::new(slot("x", 0)),
        BinOp::Add,
        Box::new(lit_int()),
    ));
    let t = ctx2.expression_type(&e);
    assert!(matches!(t, Ty::Never));
    assert_eq!(ctx2.errors.len(), 0);
    assert_eq!(ctx.errors.len(), 0);
}

#[test]
fn lambda_records_one_approximation() {
    let mut ctx = ctx_with(vec![]);
    let t = ctx.expression_type(&ex(ExprKind::Lambda));
    assert_eq!(ty_to_str(&t), "\"function\"");
    assert_eq!(ctx.approximations.len(), 1);
    assert_eq!(ctx.errors.len(), 0);
}

#[test]
fn containment_dispatches_on_the_container() {
    // `1 in x` resolves the containment operator on the right operand.
    // With x: int (which has no such attribute registered), the oracle
    // knows the type, so a hard error is recorded; the result is bool.
    let mut ctx = ctx_with(vec![(0, Ty::int_ty())]);
    let e = ex(ExprKind::Op(
        Box::new(lit_int()),
        BinOp::In,
        Box::new(slot("x", 0)),
    ));
    let t = ctx.expression_type(&e);
    assert_eq!(ty_to_str(&t), "bool.type");
    assert_eq!(ctx.errors.len(), 1);
}
