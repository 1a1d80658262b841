//! Typing tests: the union algebra, argument validation, attribute
//! resolution, and whole-module checks covering calls, list mutation,
//! reassignment, `Never` propagation, dictionary indexing and cross-module
//! interfaces.

use starlark::bindings::Interface;
use starlark::codemap::Span;
use starlark::codemap::Spanned;
use starlark::ctx::TypingContext;
use starlark::error::TypingErrorKind;
use starlark::lexer::lex_tokens;
use starlark::ops::TypingAttr;
use starlark::ops::TypingBinOp;
use starlark::oracle::Arg;
use starlark::oracle::OracleDocs;
use starlark::oracle::TypingOracle;
use starlark::oracle::TypingOracleCtx;
use starlark::syntax::ArgKind;
use starlark::syntax::ArgNode;
use starlark::syntax::AstModule;
use starlark::syntax::BinOp;
use starlark::syntax::BindingMeta;
use starlark::syntax::DefParam;
use starlark::syntax::DefParamKind;
use starlark::syntax::ExprKind;
use starlark::syntax::ExprNode;
use starlark::syntax::IdentRef;
use starlark::syntax::Lit;
use starlark::syntax::StmtKind;
use starlark::syntax::StmtNode;
use starlark::syntax::TargetKind;
use starlark::syntax::TargetNode;
use starlark::ty::Param;
use starlark::ty::Ty;
use starlark::typecheck::check_module;

/// A module under construction: arenas plus a span counter, so every node
/// gets a distinguishable span.
struct ModB {
    m: AstModule,
    at: u32,
}

impl ModB {
    fn new(n_bindings: usize, names: &[(&str, bool)]) -> ModB {
        assert_eq!(n_bindings, names.len());
        ModB {
            m: AstModule {
                stmts: Vec::new(),
                exprs: Vec::new(),
                targets: Vec::new(),
                top: Vec::new(),
                n_bindings,
                names: names
                    .iter()
                    .map(|(n, top)| BindingMeta { name: (*n).to_owned(), top_level: *top })
                    .collect(),
            },
            at: 0,
        }
    }

    fn span(&mut self) -> Span {
        self.at += 1;
        Span::new(self.at, self.at + 1)
    }

    fn e(&mut self, kind: ExprKind) -> usize {
        let span = self.span();
        self.m.exprs.push(ExprNode { span, kind });
        self.m.exprs.len() - 1
    }

    fn espan(&self, e: usize) -> Span {
        self.m.exprs[e].span
    }

    fn t(&mut self, kind: TargetKind) -> usize {
        let span = self.span();
        self.m.targets.push(TargetNode { span, kind });
        self.m.targets.len() - 1
    }

    fn s(&mut self, kind: StmtKind) -> usize {
        let span = self.span();
        self.m.stmts.push(StmtNode { span, kind });
        self.m.stmts.len() - 1
    }

    fn top(&mut self, s: usize) {
        self.m.top.push(s);
    }

    fn int_lit(&mut self, v: i64) -> usize {
        self.e(ExprKind::Literal(Lit::Int(v)))
    }

    fn str_lit(&mut self, s: &str) -> usize {
        self.e(ExprKind::Literal(Lit::Str(s.to_owned())))
    }

    fn slot(&mut self, b: usize) -> usize {
        self.e(ExprKind::Identifier(IdentRef::Slot(b)))
    }

    fn pos_arg(&mut self, e: usize) -> ArgNode {
        ArgNode { span: self.espan(e), kind: ArgKind::Pos(e) }
    }
}

/// An oracle that knows the arithmetic of the base types: integers add,
/// subtract, multiply and compare with integers; strings concatenate with
/// strings and contain strings; lists offer `append`.
fn std_oracle() -> TypingOracle {
    let mut o = TypingOracle::empty();
    o.add_bin_op("int".to_owned(), TypingBinOp::Add, Ty::int_ty(), Ty::int_ty());
    o.add_bin_op("int".to_owned(), TypingBinOp::Sub, Ty::int_ty(), Ty::int_ty());
    o.add_bin_op("int".to_owned(), TypingBinOp::Mul, Ty::int_ty(), Ty::int_ty());
    o.add_bin_op("int".to_owned(), TypingBinOp::Less, Ty::int_ty(), Ty::bool());
    o.add_bin_op("string".to_owned(), TypingBinOp::Add, Ty::string(), Ty::string());
    o.add_bin_op("string".to_owned(), TypingBinOp::Less, Ty::string(), Ty::bool());
    o.add_bin_op("string".to_owned(), TypingBinOp::In, Ty::string(), Ty::bool());
    let append = Ty::function(vec![Param::pos_only(Ty::any())], Ty::none());
    o.add_attr("list".to_owned(), TypingAttr::Regular("append".to_owned()), Some(append));
    let extend = Ty::function(vec![Param::pos_only(Ty::any())], Ty::none());
    o.add_attr("list".to_owned(), TypingAttr::Regular("extend".to_owned()), Some(extend));
    o
}

/// A global scope holding `fail` (returns `Never`) and `len`.
fn std_docs() -> OracleDocs {
    let mut d = OracleDocs::empty();
    d.add("fail".to_owned(), Ty::function(vec![Param::args(Ty::any())], Ty::never()));
    d.add("len".to_owned(), Ty::function(vec![Param::pos_only(Ty::any())], Ty::int_ty()));
    d
}

fn ctx() -> TypingContext {
    TypingContext {
        oracle: TypingOracleCtx::new(std_oracle()),
        global_docs: std_docs(),
        types: Vec::new(),
        errors: Vec::new(),
        approximations: Vec::new(),
    }
}

// ---------------------------------------------------------------------------
// The union algebra.
// ---------------------------------------------------------------------------

#[test]
fn union_with_never_is_identity() {
    let t = Ty::union2(&Ty::int_ty(), &Ty::string());
    let never = Ty::never();
    assert!(Ty::union2(&t, &never).eq_ty(&t));
    assert!(Ty::union2(&never, &t).eq_ty(&t));
    assert!(!Ty::union2(&t, &never).is_never());
    assert!(Ty::union2(&t, &Ty::any()).is_any());
    assert!(Ty::union2(&Ty::any(), &t).is_any());
    assert!(Ty::union2(&never, &never).is_never());
}

#[test]
fn union_deduplicates_and_merges_containers() {
    let t = Ty::union2(&Ty::int_ty(), &Ty::int_ty());
    assert!(t.eq_ty(&Ty::int_ty()));
    // Two lists merge their element types instead of standing side by side.
    let l = Ty::union2(&Ty::list(Ty::int_ty()), &Ty::list(Ty::string()));
    let expect = Ty::list(Ty::union2(&Ty::int_ty(), &Ty::string()));
    assert!(l.eq_ty(&expect));
    assert_eq!(l.render(), "list[int | str]");
    let d = Ty::union2(
        &Ty::dict(Ty::int_ty(), Ty::string()),
        &Ty::dict(Ty::string(), Ty::string()),
    );
    let expect_d = Ty::dict(Ty::union2(&Ty::int_ty(), &Ty::string()), Ty::string());
    assert!(d.eq_ty(&expect_d));
}

#[test]
fn render_spells_the_base_types() {
    assert_eq!(Ty::int_ty().render(), "int");
    assert_eq!(Ty::string().render(), "str");
    assert_eq!(Ty::none().render(), "None");
    assert_eq!(Ty::never().render(), "typing.Never");
    assert_eq!(Ty::any().render(), "typing.Any");
    assert_eq!(Ty::union2(&Ty::int_ty(), &Ty::string()).render(), "int | str");
}

// ---------------------------------------------------------------------------
// Argument validation.
// ---------------------------------------------------------------------------

fn pos(t: Ty) -> Spanned<Arg> {
    Spanned { span: Span::new(7, 8), node: Arg::Pos(t) }
}

#[test]
fn validate_args_accepts_a_well_typed_call() {
    let o = TypingOracleCtx::new(std_oracle());
    let params = vec![Param::pos_or_name("x".to_owned(), Ty::int_ty())];
    let args = vec![pos(Ty::int_ty())];
    assert!(o.validate_args(&params, &args, Span::new(0, 1)).is_ok());
}

#[test]
fn validate_args_rejects_an_incompatible_argument() {
    let o = TypingOracleCtx::new(std_oracle());
    let params = vec![Param::pos_or_name("x".to_owned(), Ty::int_ty())];
    let args = vec![pos(Ty::string())];
    let e = o.validate_args(&params, &args, Span::new(0, 1)).unwrap_err();
    assert!(matches!(e.kind, TypingErrorKind::IncompatibleType { .. }));
    // The error points at the argument, not at the whole call.
    assert_eq!((e.span.begin, e.span.end), (7, 8));
}

#[test]
fn validate_args_reports_a_missing_required_parameter() {
    let o = TypingOracleCtx::new(std_oracle());
    let params = vec![Param::pos_or_name("x".to_owned(), Ty::int_ty())];
    let args: Vec<Spanned<Arg>> = vec![];
    let e = o.validate_args(&params, &args, Span::new(0, 1)).unwrap_err();
    assert!(matches!(e.kind, TypingErrorKind::MissingRequiredParameter { .. }));
    // A spread could have satisfied it, so no error once one is seen.
    let spread = vec![Spanned { span: Span::new(2, 3), node: Arg::Kwargs(Ty::any()) }];
    assert!(o.validate_args(&params, &spread, Span::new(0, 1)).is_ok());
}

#[test]
fn validate_args_rejects_excess_and_unknown_arguments() {
    let o = TypingOracleCtx::new(std_oracle());
    let params = vec![Param::pos_or_name("x".to_owned(), Ty::int_ty())];
    let args = vec![pos(Ty::int_ty()), pos(Ty::int_ty())];
    let e = o.validate_args(&params, &args, Span::new(0, 1)).unwrap_err();
    assert!(matches!(e.kind, TypingErrorKind::TooManyPositionalArguments));
    let named = vec![Spanned {
        span: Span::new(4, 5),
        node: Arg::Name("y".to_owned(), Ty::int_ty()),
    }];
    let e2 = o.validate_args(&params, &named, Span::new(0, 1)).unwrap_err();
    assert!(matches!(e2.kind, TypingErrorKind::UnexpectedNamedArgument { .. }));
}

#[test]
fn validate_args_spreads_land_on_variadic_parameters() {
    let o = TypingOracleCtx::new(std_oracle());
    // def f(*args: int): every excess positional lands on *args.
    let params = vec![Param::args(Ty::int_ty())];
    let args = vec![pos(Ty::int_ty()), pos(Ty::int_ty()), pos(Ty::int_ty())];
    assert!(o.validate_args(&params, &args, Span::new(0, 1)).is_ok());
    let bad = vec![pos(Ty::int_ty()), pos(Ty::string())];
    let e = o.validate_args(&params, &bad, Span::new(0, 1)).unwrap_err();
    assert!(matches!(e.kind, TypingErrorKind::IncompatibleType { .. }));
}

// ---------------------------------------------------------------------------
// Case-analysis forgiveness and calls.
// ---------------------------------------------------------------------------

#[test]
fn attribute_on_a_union_forgives_failing_variants() {
    let mut c = ctx();
    // `int` does not iterate, `list[int]` does: the union iterates.
    let u = Ty::union2(&Ty::int_ty(), &Ty::list(Ty::int_ty()));
    let r = c.expression_attribute(&u, TypingAttr::Iter, Span::new(0, 1));
    assert!(c.errors.is_empty());
    assert!(r.eq_ty(&Ty::int_ty()));
    // On `int` alone the same attribute errs.
    let r2 = c.expression_attribute(&Ty::int_ty(), TypingAttr::Iter, Span::new(0, 1));
    assert_eq!(c.errors.len(), 1);
    assert!(matches!(c.errors[0].kind, TypingErrorKind::AttributeNotAvailable { .. }));
    assert!(r2.is_never());
}

#[test]
fn call_on_a_union_forgives_failing_variants() {
    let o = TypingOracleCtx::new(std_oracle());
    let f = Ty::function(vec![Param::pos_only(Ty::int_ty())], Ty::string());
    let u = Ty::union2(&Ty::int_ty(), &f);
    let r = o.validate_call(Span::new(0, 1), &u, &vec![pos(Ty::int_ty())]).unwrap();
    assert!(r.eq_ty(&Ty::string()));
    // With no callable variant at all, the call fails.
    let e = o
        .validate_call(Span::new(0, 1), &Ty::int_ty(), &vec![pos(Ty::int_ty())])
        .unwrap_err();
    assert!(matches!(e.kind, TypingErrorKind::CallToNonCallable { .. }));
    // On `Never` there is no variant to succeed and nothing to blame.
    let e2 = o
        .validate_call(Span::new(0, 1), &Ty::never(), &vec![pos(Ty::int_ty())])
        .unwrap_err();
    assert!(matches!(e2.kind, TypingErrorKind::CallArgumentsIncompatible));
}

#[test]
fn unary_operators_follow_the_capability_flags() {
    let mut c = ctx();
    let r = c.expression_un_op(Span::new(0, 1), Ty::int_ty(), starlark::ops::TypingUnOp::Minus);
    assert!(r.eq_ty(&Ty::int_ty()));
    assert!(c.errors.is_empty());
    let r2 = c.expression_un_op(Span::new(0, 1), Ty::string(), starlark::ops::TypingUnOp::Minus);
    assert_eq!(c.errors.len(), 1);
    assert!(matches!(
        c.errors[0].kind,
        TypingErrorKind::UnaryOperatorNotAvailable { .. }
    ));
    assert!(r2.is_never());
}

#[test]
fn inferring_twice_yields_equal_types() {
    // The same expression inferred twice, nothing mutated in between,
    // yields structurally equal types.
    let mut b = ModB::new(0, &[]);
    let one = b.int_lit(1);
    let two = b.int_lit(2);
    let sum = b.e(ExprKind::Op(one, BinOp::Add, two));
    let mut c = ctx();
    let first = c.expression_type(&b.m, sum);
    let second = c.expression_type(&b.m, sum);
    assert!(first.eq_ty(&second));
    assert!(first.eq_ty(&Ty::int_ty()));
}

#[test]
fn unknown_global_and_unknown_builtin_error() {
    let mut b = ModB::new(0, &[]);
    let g = b.e(ExprKind::Identifier(IdentRef::Global("mystery".to_owned())));
    let s = b.s(StmtKind::Expression(g));
    b.top(s);
    let (_iface, errors, _approx) = check_module(&b.m, std_oracle(), std_docs());
    assert_eq!(errors.len(), 1);
    assert!(matches!(errors[0].kind, TypingErrorKind::UnknownBuiltin { .. }));
}

// ---------------------------------------------------------------------------
// Whole-module scenarios.
// ---------------------------------------------------------------------------

/// `def f(x: int) -> int: return x` then a call of `f`.
fn module_with_f(arg_is_string: bool) -> (AstModule, Span) {
    // Bindings: 0 = f (top level), 1 = x.
    let mut b = ModB::new(2, &[("f", true), ("x", false)]);
    let xref = b.slot(1);
    let ret = b.s(StmtKind::Return(Some(xref)));
    let def = b.s(StmtKind::Def(
        0,
        vec![DefParam {
            name: "x".to_owned(),
            binding: Some(1),
            ann: Some(Ty::int_ty()),
            kind: DefParamKind::Normal,
        }],
        Some(Ty::int_ty()),
        vec![ret],
    ));
    b.top(def);
    let fref = b.slot(0);
    let arg = if arg_is_string { b.str_lit("a") } else { b.int_lit(1) };
    let arg_span = b.espan(arg);
    let argn = b.pos_arg(arg);
    let call = b.e(ExprKind::Call(fref, vec![argn]));
    let s = b.s(StmtKind::Expression(call));
    b.top(s);
    (b.m, arg_span)
}

#[test]
fn calling_with_an_incompatible_argument_is_one_error() {
    let (m, arg_span) = module_with_f(true);
    let (_iface, errors, _approx) = check_module(&m, std_oracle(), std_docs());
    assert_eq!(errors.len(), 1);
    assert!(matches!(errors[0].kind, TypingErrorKind::IncompatibleType { .. }));
    assert_eq!(
        (errors[0].span.begin, errors[0].span.end),
        (arg_span.begin, arg_span.end)
    );
}

#[test]
fn calling_with_a_fitting_argument_is_clean_and_yields_the_result_type() {
    // Bindings: 0 = f, 1 = x, 2 = r; `r = f(1)` exports `int`.
    let mut b = ModB::new(3, &[("f", true), ("x", false), ("r", true)]);
    let xref = b.slot(1);
    let ret = b.s(StmtKind::Return(Some(xref)));
    let def = b.s(StmtKind::Def(
        0,
        vec![DefParam {
            name: "x".to_owned(),
            binding: Some(1),
            ann: Some(Ty::int_ty()),
            kind: DefParamKind::Normal,
        }],
        Some(Ty::int_ty()),
        vec![ret],
    ));
    b.top(def);
    let fref = b.slot(0);
    let arg = b.int_lit(1);
    let argn = b.pos_arg(arg);
    let call = b.e(ExprKind::Call(fref, vec![argn]));
    let rt = b.t(TargetKind::Identifier(IdentRef::Slot(2)));
    let assign = b.s(StmtKind::Assign(rt, None, call));
    b.top(assign);
    let (iface, errors, _approx) = check_module(&b.m, std_oracle(), std_docs());
    assert!(errors.is_empty(), "unexpected errors");
    let r = iface.get(&"r".to_owned()).unwrap();
    assert!(r.eq_ty(&Ty::int_ty()), "got {}", r.render());
}

#[test]
fn appending_mixed_elements_grows_the_list_type() {
    // x = []; x.append(1); x.append("s")  =>  x: list[int | str]
    let mut b = ModB::new(1, &[("x", true)]);
    let empty = b.e(ExprKind::List(vec![]));
    let xt = b.t(TargetKind::Identifier(IdentRef::Slot(0)));
    let assign = b.s(StmtKind::Assign(xt, None, empty));
    b.top(assign);
    for lit_int in [true, false] {
        let xref = b.slot(0);
        let dot = b.e(ExprKind::Dot(xref, "append".to_owned()));
        let arg = if lit_int { b.int_lit(1) } else { b.str_lit("s") };
        let argn = b.pos_arg(arg);
        let call = b.e(ExprKind::Call(dot, vec![argn]));
        let s = b.s(StmtKind::Expression(call));
        b.top(s);
    }
    let (iface, errors, _approx) = check_module(&b.m, std_oracle(), std_docs());
    assert!(errors.is_empty());
    let x = iface.get(&"x".to_owned()).unwrap();
    let expect = Ty::list(Ty::union2(&Ty::int_ty(), &Ty::string()));
    assert!(x.eq_ty(&expect), "got {}", x.render());
}

#[test]
fn reassignment_unions_both_contributions() {
    // x = 1; x = "s"  =>  x: int | str
    let mut b = ModB::new(1, &[("x", true)]);
    let one = b.int_lit(1);
    let t1 = b.t(TargetKind::Identifier(IdentRef::Slot(0)));
    let s1 = b.s(StmtKind::Assign(t1, None, one));
    b.top(s1);
    let s_lit = b.str_lit("s");
    let t2 = b.t(TargetKind::Identifier(IdentRef::Slot(0)));
    let s2 = b.s(StmtKind::Assign(t2, None, s_lit));
    b.top(s2);
    let (iface, errors, _approx) = check_module(&b.m, std_oracle(), std_docs());
    assert!(errors.is_empty());
    let x = iface.get(&"x".to_owned()).unwrap();
    let expect = Ty::union2(&Ty::int_ty(), &Ty::string());
    assert!(x.eq_ty(&expect), "got {}", x.render());
}

#[test]
fn returning_never_satisfies_any_declared_return_type() {
    // def f() -> typing.Never: return fail()
    let mut b = ModB::new(1, &[("f", true)]);
    let failref = b.e(ExprKind::Identifier(IdentRef::Global("fail".to_owned())));
    let call = b.e(ExprKind::Call(failref, vec![]));
    let ret = b.s(StmtKind::Return(Some(call)));
    let def = b.s(StmtKind::Def(0, vec![], Some(Ty::never()), vec![ret]));
    b.top(def);
    let (_iface, errors, _approx) = check_module(&b.m, std_oracle(), std_docs());
    assert!(errors.is_empty(), "Never must satisfy every declared return type");
}

#[test]
fn indexing_a_dict_with_the_wrong_key_type_is_checked() {
    // {1: "a"}["x"]: the chosen policy validates the key against the
    // declared key type, so this is one incompatibility error.
    let mut b = ModB::new(0, &[]);
    let k = b.int_lit(1);
    let v = b.str_lit("a");
    let d = b.e(ExprKind::Dict(vec![(k, v)]));
    let key = b.str_lit("x");
    let key_span = b.espan(key);
    let ix = b.e(ExprKind::Index(d, key));
    let s = b.s(StmtKind::Expression(ix));
    b.top(s);
    let (_iface, errors, _approx) = check_module(&b.m, std_oracle(), std_docs());
    assert_eq!(errors.len(), 1);
    assert!(matches!(errors[0].kind, TypingErrorKind::IncompatibleType { .. }));
    assert_eq!(
        (errors[0].span.begin, errors[0].span.end),
        (key_span.begin, key_span.end)
    );
}

#[test]
fn loaded_types_flow_into_the_dependent_module() {
    // Module a: y = 5. Module b: load(":a.bzl", "y"); y + "s".
    let mut a = ModB::new(1, &[("y", true)]);
    let five = a.int_lit(5);
    let yt = a.t(TargetKind::Identifier(IdentRef::Slot(0)));
    let s = a.s(StmtKind::Assign(yt, None, five));
    a.top(s);
    let (iface_a, errors_a, _) = check_module(&a.m, std_oracle(), std_docs());
    assert!(errors_a.is_empty());
    assert!(iface_a.get(&"y".to_owned()).unwrap().eq_ty(&Ty::int_ty()));

    let mut b = ModB::new(1, &[("y", true)]);
    let load = b.s(StmtKind::Load(
        iface_a,
        vec![starlark::syntax::LoadArg { binding: 0, name: "y".to_owned() }],
    ));
    b.top(load);
    let yref = b.slot(0);
    let s_lit = b.str_lit("s");
    let plus = b.e(ExprKind::Op(yref, BinOp::Add, s_lit));
    let plus_span = b.espan(plus);
    let st = b.s(StmtKind::Expression(plus));
    b.top(st);
    let (_iface_b, errors_b, _) = check_module(&b.m, std_oracle(), std_docs());
    assert_eq!(errors_b.len(), 1);
    assert!(matches!(
        errors_b[0].kind,
        TypingErrorKind::BinaryOperatorNotAvailable { .. }
    ));
    assert_eq!(
        (errors_b[0].span.begin, errors_b[0].span.end),
        (plus_span.begin, plus_span.end)
    );
}

#[test]
fn calling_a_plain_value_is_not_callable() {
    let mut b = ModB::new(0, &[]);
    let five = b.int_lit(5);
    let call = b.e(ExprKind::Call(five, vec![]));
    let s = b.s(StmtKind::Expression(call));
    b.top(s);
    let (_iface, errors, _approx) = check_module(&b.m, std_oracle(), std_docs());
    assert_eq!(errors.len(), 1);
    assert!(matches!(errors[0].kind, TypingErrorKind::CallToNonCallable { .. }));
}

#[test]
fn lambdas_are_approximated_not_rejected() {
    let mut b = ModB::new(1, &[("f", true)]);
    let lam = b.e(ExprKind::Lambda);
    let t = b.t(TargetKind::Identifier(IdentRef::Slot(0)));
    let s = b.s(StmtKind::Assign(t, None, lam));
    b.top(s);
    let (iface, errors, approx) = check_module(&b.m, std_oracle(), std_docs());
    assert!(errors.is_empty());
    assert!(!approx.is_empty(), "the lambda must be recorded as an approximation");
    assert!(iface.get(&"f".to_owned()).unwrap().is_function());
}

// ---------------------------------------------------------------------------
// The lexer feeding the checker's front end stays in step: a program with a
// `typing.Never` return annotation lexes cleanly.
// ---------------------------------------------------------------------------

#[test]
fn test_never_compile_time() {
    // def f() -> typing.Never: return fail()  — the `return`'s checked type
    // is `Never`, which satisfies the declared return type.
    let program = "\ndef f() -> typing.Never:\n    return fail()\n";
    assert!(lex_tokens(program.trim()).is_ok());
    let mut b = ModB::new(1, &[("f", true)]);
    let failref = b.e(ExprKind::Identifier(IdentRef::Global("fail".to_owned())));
    let call = b.e(ExprKind::Call(failref, vec![]));
    let ret = b.s(StmtKind::Return(Some(call)));
    let def = b.s(StmtKind::Def(0, vec![], Some(Ty::never()), vec![ret]));
    b.top(def);
    let (_iface, errors, _approx) = check_module(&b.m, std_oracle(), std_docs());
    assert!(errors.is_empty());
}


#[test]
fn iterating_a_list_binds_the_element_type() {
    // for x in [1, 2]: pass  =>  x: int
    let mut b = ModB::new(1, &[("x", true)]);
    let one = b.int_lit(1);
    let two = b.int_lit(2);
    let lst = b.e(ExprKind::List(vec![one, two]));
    let xt = b.t(TargetKind::Identifier(IdentRef::Slot(0)));
    let pass = b.s(StmtKind::Pass);
    let f = b.s(StmtKind::For(xt, lst, vec![pass]));
    b.top(f);
    let (iface, errors, _approx) = check_module(&b.m, std_oracle(), std_docs());
    assert!(errors.is_empty());
    let x = iface.get(&"x".to_owned()).unwrap();
    assert!(x.eq_ty(&Ty::int_ty()), "got {}", x.render());
}

#[test]
fn augmented_assignment_feeds_the_operator_result_back() {
    // x = 1; x += 2  =>  x stays int, no errors.
    let mut b = ModB::new(1, &[("x", true)]);
    let one = b.int_lit(1);
    let t1 = b.t(TargetKind::Identifier(IdentRef::Slot(0)));
    let s1 = b.s(StmtKind::Assign(t1, None, one));
    b.top(s1);
    let two = b.int_lit(2);
    let t2 = b.t(TargetKind::Identifier(IdentRef::Slot(0)));
    let s2 = b.s(StmtKind::AssignModify(t2, starlark::syntax::AssignOp::Add, two));
    b.top(s2);
    let (iface, errors, _approx) = check_module(&b.m, std_oracle(), std_docs());
    assert!(errors.is_empty());
    let x = iface.get(&"x".to_owned()).unwrap();
    assert!(x.eq_ty(&Ty::int_ty()), "got {}", x.render());
}

#[test]
fn attribute_assignment_is_an_approximation_not_an_error() {
    // a.b = 1 is outside the model: it contributes nothing and is recorded
    // as an approximation rather than rejected.
    let mut b = ModB::new(1, &[("a", true)]);
    let obj = b.slot(0);
    let target = b.t(TargetKind::Dot(obj, "b".to_owned()));
    let one = b.int_lit(1);
    let s = b.s(StmtKind::Assign(target, None, one));
    b.top(s);
    let (_iface, errors, approx) = check_module(&b.m, std_oracle(), std_docs());
    assert!(errors.is_empty());
    assert!(!approx.is_empty());
}

#[test]
fn annotations_are_validated_against_the_assigned_value() {
    // x: int = "s" is one incompatibility; the binding still accumulates
    // both the declared and the assigned type.
    let mut b = ModB::new(1, &[("x", true)]);
    let s_lit = b.str_lit("s");
    let t = b.t(TargetKind::Identifier(IdentRef::Slot(0)));
    let s = b.s(StmtKind::Assign(t, Some(Ty::int_ty()), s_lit));
    b.top(s);
    let (iface, errors, _approx) = check_module(&b.m, std_oracle(), std_docs());
    assert_eq!(errors.len(), 1);
    assert!(matches!(errors[0].kind, TypingErrorKind::IncompatibleType { .. }));
    let expect = Ty::union2(&Ty::int_ty(), &Ty::string());
    assert!(iface.get(&"x".to_owned()).unwrap().eq_ty(&expect));
}

#[test]
fn extend_folds_the_iterated_element_type_in() {
    // x = [1]; x.extend(["s"])  =>  x: list[int | str]
    let mut b = ModB::new(1, &[("x", true)]);
    let one = b.int_lit(1);
    let lst = b.e(ExprKind::List(vec![one]));
    let xt = b.t(TargetKind::Identifier(IdentRef::Slot(0)));
    let assign = b.s(StmtKind::Assign(xt, None, lst));
    b.top(assign);
    let xref = b.slot(0);
    let dot = b.e(ExprKind::Dot(xref, "extend".to_owned()));
    let s_lit = b.str_lit("s");
    let arg_list = b.e(ExprKind::List(vec![s_lit]));
    let argn = b.pos_arg(arg_list);
    let call = b.e(ExprKind::Call(dot, vec![argn]));
    let st = b.s(StmtKind::Expression(call));
    b.top(st);
    let (iface, errors, _approx) = check_module(&b.m, std_oracle(), std_docs());
    assert!(errors.is_empty());
    let x = iface.get(&"x".to_owned()).unwrap();
    let expect = Ty::list(Ty::union2(&Ty::int_ty(), &Ty::string()));
    assert!(x.eq_ty(&expect), "got {}", x.render());
}

#[test]
fn intersection_follows_the_oracles_iterability_facts() {
    // With the fact that the named runtime type iterates integers, an
    // iterable of int intersects it; with the fact that it does not
    // iterate, it does not; with no fact at all, the checker stays
    // permissive.
    let named = Ty::basic(starlark::ty::TyBasic::Name("range".to_owned()));
    let iter_int = Ty::iter(Ty::int_ty());

    let mut knows = TypingOracle::empty();
    knows.add_attr("range".to_owned(), TypingAttr::Iter, Some(Ty::int_ty()));
    let o = TypingOracleCtx::new(knows);
    assert!(o.intersects(&iter_int, &named));
    assert!(o.intersects(&named, &iter_int));

    let mut refuses = TypingOracle::empty();
    refuses.add_attr("range".to_owned(), TypingAttr::Iter, None);
    let o2 = TypingOracleCtx::new(refuses);
    assert!(!o2.intersects(&iter_int, &named));

    let silent = TypingOracleCtx::new(TypingOracle::empty());
    assert!(silent.intersects(&iter_int, &named));

    // An iterable against a fixed-arity tuple compares the element type
    // with the tuple's elements.
    let pair = Ty::tuple(vec![Ty::int_ty(), Ty::int_ty()]);
    assert!(silent.intersects(&iter_int, &pair));
    let spair = Ty::tuple(vec![Ty::string(), Ty::string()]);
    assert!(!silent.intersects(&Ty::iter(Ty::bool()), &spair));
}

#[test]
fn equality_of_unrelated_types_is_soft() {
    // 1 == "s" is pointless but not wrong: no diagnostic, result bool.
    let mut b = ModB::new(0, &[]);
    let one = b.int_lit(1);
    let s_lit = b.str_lit("s");
    let eq = b.e(ExprKind::Op(one, BinOp::Equal, s_lit));
    let st = b.s(StmtKind::Expression(eq));
    b.top(st);
    let (_iface, errors, _approx) = check_module(&b.m, std_oracle(), std_docs());
    assert!(errors.is_empty(), "equality must never raise a type error");
}

#[test]
fn tuple_destructuring_projects_each_element() {
    // (a, b2) = (1, "s")  =>  a: int, b2: str
    let mut b = ModB::new(2, &[("a", true), ("b2", true)]);
    let one = b.int_lit(1);
    let s_lit = b.str_lit("s");
    let pair = b.e(ExprKind::Tuple(vec![one, s_lit]));
    let ta = b.t(TargetKind::Identifier(IdentRef::Slot(0)));
    let tb = b.t(TargetKind::Identifier(IdentRef::Slot(1)));
    let tt = b.t(TargetKind::Tuple(vec![ta, tb]));
    let assign = b.s(StmtKind::Assign(tt, None, pair));
    b.top(assign);
    let (iface, errors, _approx) = check_module(&b.m, std_oracle(), std_docs());
    assert!(errors.is_empty());
    let a = iface.get(&"a".to_owned()).unwrap();
    assert!(a.eq_ty(&Ty::int_ty()), "got {}", a.render());
    let b_ty = iface.get(&"b2".to_owned()).unwrap();
    assert!(b_ty.eq_ty(&Ty::string()), "got {}", b_ty.render());
}

#[test]
fn insert_contributes_its_second_argument() {
    // xs = []; xs.insert(0, 2)  =>  xs: list[int]
    let mut b = ModB::new(1, &[("xs", true)]);
    let empty = b.e(ExprKind::List(vec![]));
    let xt = b.t(TargetKind::Identifier(IdentRef::Slot(0)));
    let assign = b.s(StmtKind::Assign(xt, None, empty));
    b.top(assign);
    let xref = b.slot(0);
    let dot = b.e(ExprKind::Dot(xref, "insert".to_owned()));
    let at = b.int_lit(0);
    let val = b.int_lit(2);
    let a0 = b.pos_arg(at);
    let a1 = b.pos_arg(val);
    let call = b.e(ExprKind::Call(dot, vec![a0, a1]));
    let s = b.s(StmtKind::Expression(call));
    b.top(s);
    let mut o = std_oracle();
    let insert = Ty::function(
        vec![Param::pos_only(Ty::int_ty()), Param::pos_only(Ty::any())],
        Ty::none(),
    );
    o.add_attr("list".to_owned(), TypingAttr::Regular("insert".to_owned()), Some(insert));
    let (iface, errors, _approx) = check_module(&b.m, o, std_docs());
    assert!(errors.is_empty(), "errors: {}", errors.len());
    let xs = iface.get(&"xs".to_owned()).unwrap();
    assert!(xs.eq_ty(&Ty::list(Ty::int_ty())), "got {}", xs.render());
}
