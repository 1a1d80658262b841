//! The inference engine: a type for every expression, diagnostics for every
//! violation, and the per-binding types computed from the collected
//! contributions.
//!
//! Errors never abort anything: the walk records them and returns `Never`
//! for the failed sub-expression, which suppresses follow-on errors on that
//! path. Unmodelled constructs widen to `Any` and record an approximation.
//! Out-of-range indices in the consumed syntax degrade to `Any` rather than
//! fail: the checker tolerates input that already failed earlier phases.
//!
//! The contracts here pin each step to the oracle layer's ghost functions:
//! the leaf helpers exactly (result and recorded diagnostics), the
//! expression walk by shape (what kind of type each expression form
//! yields, with literals and resolved identifiers pinned to the tables);
//! the types of sub-expressions feeding a form are existentially bound
//! where the walk itself computes them.

use vstd::prelude::*;

use crate::bindings::BindExpr;
use crate::bindings::Bindings;
use crate::codemap::Span;
use crate::codemap::Spanned;
use crate::error::Approximation;
use crate::error::TypingError;
use crate::error::TypingErrorKind;
use crate::ops::TypingAttr;
use crate::ops::TypingBinOp;
use crate::ops::TypingUnOp;
use crate::oracle::wf_docs;
use crate::oracle::wf_oracle;
use crate::oracle::Arg;
use crate::oracle::OracleDocs;
use crate::oracle::TypingOracleCtx;
use crate::syntax::ArgKind;
use crate::syntax::AssignOp;
use crate::syntax::AstModule;
use crate::syntax::BinOp;
use crate::syntax::CompClause;
use crate::syntax::ExprKind;
use crate::syntax::ForClause;
use crate::syntax::IdentRef;
use crate::syntax::Lit;
use crate::syntax::TargetKind;
use crate::ty::new_string;
use crate::ty::ty_v;
use crate::ty::wf_basic;
use crate::ty::wf_ty;
use crate::ty::Ty;
use crate::ty::TyBasic;

verus! {

/// One module check's working state: the oracle, the global scope, the
/// per-binding types, and the diagnostics gathered so far.
pub struct TypingContext {
    /// The oracle with the validation routines.
    pub oracle: TypingOracleCtx,
    /// The documented global scope.
    pub global_docs: OracleDocs,
    /// Per binding slot, its current type, where one is known yet.
    pub types: Vec<Option<Ty>>,
    /// The violations found so far.
    pub errors: Vec<TypingError>,
    /// The approximations made so far.
    pub approximations: Vec<Approximation>,
}

/// The context's own well-formedness: tables in normal form.
pub open spec fn ctx_wf(c: &TypingContext) -> bool {
    &&& wf_oracle(&c.oracle.oracle)
    &&& wf_docs(&c.global_docs)
    &&& (forall|i: int|
        0 <= i < c.types@.len() && (#[trigger] c.types@[i]) is Some ==> wf_ty(ty_v(c.types@[i]->0)))
}

/// The error list grew by exactly the given diagnostics, in order.
pub open spec fn errs_grew(
    old_errs: Seq<TypingError>,
    new_errs: Seq<TypingError>,
    es: Seq<crate::error::TypingErrorV>,
) -> bool {
    &&& new_errs.len() == old_errs.len() + es.len()
    &&& (forall|j: int| 0 <= j < old_errs.len() ==> new_errs[j] == old_errs[j])
    &&& (forall|j: int|
        0 <= j < es.len() ==> (#[trigger] new_errs[old_errs.len() + j])@ == es[j])
}

/// The error list grew by exactly one diagnostic with the given mirror.
pub open spec fn errs_grew_by(
    old_errs: Seq<TypingError>,
    new_errs: Seq<TypingError>,
    e: crate::error::TypingErrorV,
) -> bool {
    &&& new_errs.len() == old_errs.len() + 1
    &&& (forall|j: int| 0 <= j < old_errs.len() ==> new_errs[j] == old_errs[j])
    &&& new_errs[old_errs.len() as int]@ == e
}

/// The first list is kept, unchanged, as a prefix of the second: the walk
/// appends diagnostics and never drops or rewrites one.
pub open spec fn errs_appended(old_errs: Seq<TypingError>, new_errs: Seq<TypingError>) -> bool {
    &&& new_errs.len() >= old_errs.len()
    &&& (forall|j: int| 0 <= j < old_errs.len() ==> new_errs[j] == old_errs[j])
}

/// As [`errs_appended`], for the approximation accumulator.
pub open spec fn approx_appended(
    old_approx: Seq<Approximation>,
    new_approx: Seq<Approximation>,
) -> bool {
    &&& new_approx.len() >= old_approx.len()
    &&& (forall|j: int| 0 <= j < old_approx.len() ==> new_approx[j] == old_approx[j])
}

/// The outcome of resolving a pseudo-attribute of `arg0` to a callable and
/// validating a call with the one positional argument `arg1`: the
/// diagnostics to append, in order, and the resulting type. An unavailable
/// attribute records its own error and the call of the resulting `Never`
/// then fails as every call of `Never` does.
pub open spec fn prim_outcome_v(
    o: &crate::oracle::TypingOracle,
    arg0: crate::ty::TyV,
    attr: crate::ops::TypingAttrV,
    arg1span: Span,
    arg1: crate::ty::TyV,
    span: Span,
) -> (Seq<crate::error::TypingErrorV>, crate::ty::TyV) {
    let fun = match crate::oracle::attribute_ty_v(o, arg0, attr) {
        Option::None => crate::ty::never_v(),
        Option::Some(f) => f,
    };
    let first: Seq<crate::error::TypingErrorV> = match crate::oracle::attribute_ty_v(
        o,
        arg0,
        attr,
    ) {
        Option::None => seq![
            crate::error::TypingErrorV {
                span,
                kind: crate::error::TypingErrorKindV::AttributeNotAvailable { ty: arg0, attr },
            },
        ],
        Option::Some(_) => Seq::empty(),
    };
    match crate::oracle::validate_call_v(
        o,
        fun,
        seq![(arg1span, crate::oracle::ArgV::Pos(arg1))],
        span,
    ) {
        Result::Ok(t) => (first, t),
        Result::Err(e) => (first.push(e), crate::ty::never_v()),
    }
}

/// The result of one alternative pair under a binary operator: a concrete
/// left operand answers from its own operator rules; every other shape
/// resolves the operator pseudo-attribute and validates a call with the
/// right operand; `None` is a failed pair.
pub open spec fn bin_basic_outcome_v(
    o: &crate::oracle::TypingOracle,
    l: crate::ty::TyBasicV,
    op: TypingBinOp,
    rspan: Span,
    rb: crate::ty::TyBasicV,
    span: Span,
) -> Option<crate::ty::TyV> {
    match l {
        crate::ty::TyBasicV::StarlarkValue(sv) => crate::oracle::bin_op_lookup_v(
            o,
            o.bin_ops@,
            0,
            sv.name,
            op,
            rb,
        ),
        _ => match crate::oracle::resolve_attr_v(o, l, crate::ops::TypingAttrV::BinOp(op)) {
            Option::None => Option::None,
            Option::Some(f) => match crate::oracle::validate_call_v(
                o,
                f,
                seq![
                    (rspan, crate::oracle::ArgV::Pos(crate::ty::TyV { alts: seq![rb] })),
                ],
                span,
            ) {
                Result::Ok(t) => Option::Some(t),
                Result::Err(_) => Option::None,
            },
        },
    }
}

/// The successful results over every pair of alternatives, scanned in
/// order, appended to `acc`.
pub open spec fn bin_pairs_v(
    o: &crate::oracle::TypingOracle,
    la: Seq<crate::ty::TyBasicV>,
    op: TypingBinOp,
    ra: Seq<crate::ty::TyBasicV>,
    rspan: Span,
    span: Span,
    i: int,
    j: int,
    acc: Seq<crate::ty::TyV>,
) -> Seq<crate::ty::TyV>
    decreases la.len() - i, ra.len() - j,
{
    if i < 0 || j < 0 || i >= la.len() {
        acc
    } else if j >= ra.len() {
        bin_pairs_v(o, la, op, ra, rspan, span, i + 1, 0, acc)
    } else {
        match bin_basic_outcome_v(o, la[i], op, rspan, ra[j], span) {
            Option::Some(t) => bin_pairs_v(o, la, op, ra, rspan, span, i, j + 1, acc.push(t)),
            Option::None => bin_pairs_v(o, la, op, ra, rspan, span, i, j + 1, acc),
        }
    }
}

/// The pair scan keeps what it has accumulated.
proof fn lemma_bin_pairs_len(
    o: &crate::oracle::TypingOracle,
    la: Seq<crate::ty::TyBasicV>,
    op: TypingBinOp,
    ra: Seq<crate::ty::TyBasicV>,
    rspan: Span,
    span: Span,
    i: int,
    j: int,
    acc: Seq<crate::ty::TyV>,
)
    ensures
        bin_pairs_v(o, la, op, ra, rspan, span, i, j, acc).len() >= acc.len(),
    decreases la.len() - i, ra.len() - j,
{
    if 0 <= i < la.len() && 0 <= j {
        if j >= ra.len() {
            lemma_bin_pairs_len(o, la, op, ra, rspan, span, i + 1, 0, acc);
        } else {
            match bin_basic_outcome_v(o, la[i], op, rspan, ra[j], span) {
                Option::Some(t) => lemma_bin_pairs_len(
                    o,
                    la,
                    op,
                    ra,
                    rspan,
                    span,
                    i,
                    j + 1,
                    acc.push(t),
                ),
                Option::None => lemma_bin_pairs_len(o, la, op, ra, rspan, span, i, j + 1, acc),
            }
        }
    }
}

/// A succeeding pair at or after the scan position leaves the scan with at
/// least one success.
proof fn lemma_bin_pairs_hit(
    o: &crate::oracle::TypingOracle,
    la: Seq<crate::ty::TyBasicV>,
    op: TypingBinOp,
    ra: Seq<crate::ty::TyBasicV>,
    rspan: Span,
    span: Span,
    i: int,
    j: int,
    acc: Seq<crate::ty::TyV>,
    pi: int,
    pj: int,
)
    requires
        0 <= i <= pi < la.len(),
        0 <= j,
        i == pi ==> j <= pj,
        0 <= pj < ra.len(),
        bin_basic_outcome_v(o, la[pi], op, rspan, ra[pj], span) is Some,
    ensures
        bin_pairs_v(o, la, op, ra, rspan, span, i, j, acc).len() > 0,
    decreases la.len() - i, ra.len() - j,
{
    if j >= ra.len() {
        lemma_bin_pairs_hit(o, la, op, ra, rspan, span, i + 1, 0, acc, pi, pj);
    } else if i == pi && j == pj {
        match bin_basic_outcome_v(o, la[pi], op, rspan, ra[pj], span) {
            Option::Some(t) => {
                lemma_bin_pairs_len(o, la, op, ra, rspan, span, i, j + 1, acc.push(t));
            },
            Option::None => {},
        }
    } else {
        match bin_basic_outcome_v(o, la[i], op, rspan, ra[j], span) {
            Option::Some(t) => lemma_bin_pairs_hit(
                o,
                la,
                op,
                ra,
                rspan,
                span,
                i,
                j + 1,
                acc.push(t),
                pi,
                pj,
            ),
            Option::None => lemma_bin_pairs_hit(o, la, op, ra, rspan, span, i, j + 1, acc, pi, pj),
        }
    }
}

/// The whole pairwise analysis packaged: the diagnostics to append and the
/// resulting type. `Never` on either side short-circuits; a single
/// succeeding pair forgives the rest; only a total failure errs.
pub open spec fn bin_ty_outcome_v(
    o: &crate::oracle::TypingOracle,
    l: crate::ty::TyV,
    op: TypingBinOp,
    r: crate::ty::TyV,
    rspan: Span,
    span: Span,
) -> (Seq<crate::error::TypingErrorV>, crate::ty::TyV) {
    if l.is_never() || r.is_never() {
        (Seq::empty(), crate::ty::never_v())
    } else {
        let good = bin_pairs_v(o, l.alts, op, r.alts, rspan, span, 0, 0, Seq::empty());
        if good.len() > 0 {
            (Seq::empty(), crate::ty::unions_v(good, 0, crate::ty::never_v()))
        } else {
            (
                seq![
                    crate::error::TypingErrorV {
                        span,
                        kind: crate::error::TypingErrorKindV::BinaryOperatorNotAvailable {
                            bin_op: op,
                            left: l,
                            right: r,
                        },
                    },
                ],
                crate::ty::never_v(),
            )
        }
    }
}

/// Shorthand for an arithmetic arm of [`TypingContext::expr_bin_op`]: the
/// result and the appended diagnostics are exactly the pairwise analysis'.
pub open spec fn bin_arith_ensures(
    o: &crate::oracle::TypingOracle,
    l: crate::ty::TyV,
    op: TypingBinOp,
    r: crate::ty::TyV,
    rspan: Span,
    span: Span,
    old_errs: Seq<TypingError>,
    new_errs: Seq<TypingError>,
    result: crate::ty::TyV,
) -> bool {
    let (es, rv) = bin_ty_outcome_v(o, l, op, r, rspan, span);
    errs_grew(old_errs, new_errs, es) && result == rv
}

/// The alternatives a unary operator keeps: each concrete runtime type
/// whose capability flag for the operator is set, unchanged, appended to
/// `acc`.
pub open spec fn un_op_kept_v(
    alts: Seq<crate::ty::TyBasicV>,
    op: TypingUnOp,
    i: int,
    acc: Seq<crate::ty::TyV>,
) -> Seq<crate::ty::TyV>
    decreases alts.len() - i,
{
    if i < 0 || i >= alts.len() {
        acc
    } else {
        match alts[i] {
            crate::ty::TyBasicV::StarlarkValue(sv) => if (match op {
                TypingUnOp::Plus => sv.has_plus,
                TypingUnOp::Minus => sv.has_minus,
                TypingUnOp::BitNot => sv.has_bit_not,
            }) {
                un_op_kept_v(
                    alts,
                    op,
                    i + 1,
                    acc.push(
                        crate::ty::TyV { alts: seq![crate::ty::TyBasicV::StarlarkValue(sv)] },
                    ),
                )
            } else {
                un_op_kept_v(alts, op, i + 1, acc)
            },
            _ => un_op_kept_v(alts, op, i + 1, acc),
        }
    }
}

/// The result type a unary operator yields for an operand, per
/// [`TypingContext::expression_un_op`]'s contract: `Any` and `Never` pass
/// through, otherwise the union of the alternatives that keep the operator,
/// or `Never` where none does.
pub open spec fn un_op_result_v(tv: crate::ty::TyV, op: TypingUnOp) -> crate::ty::TyV {
    if tv.is_never() || tv.is_any() {
        tv
    } else {
        let kept = un_op_kept_v(tv.alts, op, 0, Seq::empty());
        if kept.len() > 0 {
            crate::ty::unions_v(kept, 0, crate::ty::never_v())
        } else {
            crate::ty::never_v()
        }
    }
}

/// The result type a binary expression yields, per
/// [`TypingContext::expr_bin_op`]'s contract, which also states the
/// appended diagnostics: `and`/`or` union (with the `Never` short-circuit),
/// comparisons, equality and containment yield `bool` unless an operand is
/// `Never`, and the arithmetic family dispatches through the operator
/// tables.
pub open spec fn bin_expr_result_v(
    o: &crate::oracle::TypingOracle,
    lv: crate::ty::TyV,
    op: BinOp,
    rv: crate::ty::TyV,
    rspan: Span,
    span: Span,
) -> crate::ty::TyV {
    let bool_ret = if lv.is_never() || rv.is_never() {
        crate::ty::never_v()
    } else {
        crate::ty::bool_v()
    };
    match op {
        BinOp::And | BinOp::Or => if lv.is_never() {
            crate::ty::never_v()
        } else {
            crate::ty::union2_v(lv, rv)
        },
        BinOp::Equal | BinOp::NotEqual => bool_ret,
        BinOp::In | BinOp::NotIn => bool_ret,
        BinOp::Less | BinOp::LessOrEqual | BinOp::Greater | BinOp::GreaterOrEqual => bool_ret,
        BinOp::Subtract => bin_ty_outcome_v(o, lv, TypingBinOp::Sub, rv, rspan, span).1,
        BinOp::Add => bin_ty_outcome_v(o, lv, TypingBinOp::Add, rv, rspan, span).1,
        BinOp::Multiply => bin_ty_outcome_v(o, lv, TypingBinOp::Mul, rv, rspan, span).1,
        BinOp::Percent => bin_ty_outcome_v(o, lv, TypingBinOp::Percent, rv, rspan, span).1,
        BinOp::Divide => bin_ty_outcome_v(o, lv, TypingBinOp::Div, rv, rspan, span).1,
        BinOp::FloorDivide => bin_ty_outcome_v(o, lv, TypingBinOp::FloorDiv, rv, rspan, span).1,
        BinOp::BitAnd => bin_ty_outcome_v(o, lv, TypingBinOp::BitAnd, rv, rspan, span).1,
        BinOp::BitOr => bin_ty_outcome_v(o, lv, TypingBinOp::BitOr, rv, rspan, span).1,
        BinOp::BitXor => bin_ty_outcome_v(o, lv, TypingBinOp::BitXor, rv, rspan, span).1,
        BinOp::LeftShift => bin_ty_outcome_v(o, lv, TypingBinOp::LeftShift, rv, rspan, span).1,
        BinOp::RightShift => bin_ty_outcome_v(o, lv, TypingBinOp::RightShift, rv, rspan, span).1,
    }
}

/// The list and dictionary shapes an index write refines, per alternative
/// of the binding's current type, appended to `acc`: a list takes the
/// written element, a dictionary the index/element pair; other shapes are
/// not refined.
pub open spec fn set_fold_parts_v(
    alts: Seq<crate::ty::TyBasicV>,
    iv: crate::ty::TyV,
    ev: crate::ty::TyV,
    i: int,
    acc: Seq<crate::ty::TyV>,
) -> Seq<crate::ty::TyV>
    decreases alts.len() - i,
{
    if i < 0 || i >= alts.len() {
        acc
    } else {
        match alts[i] {
            crate::ty::TyBasicV::List(_) => set_fold_parts_v(
                alts,
                iv,
                ev,
                i + 1,
                acc.push(crate::ty::list_v(ev)),
            ),
            crate::ty::TyBasicV::Dict(_, _) => set_fold_parts_v(
                alts,
                iv,
                ev,
                i + 1,
                acc.push(crate::ty::dict_v(iv, ev)),
            ),
            _ => set_fold_parts_v(alts, iv, ev, i + 1, acc),
        }
    }
}

/// What an index write through a binding contributes: the union of the
/// refined container shapes.
pub open spec fn set_index_fold_v(
    cur: crate::ty::TyV,
    iv: crate::ty::TyV,
    ev: crate::ty::TyV,
) -> crate::ty::TyV {
    crate::ty::unions_v(
        set_fold_parts_v(cur.alts, iv, ev, 0, Seq::empty()),
        0,
        crate::ty::never_v(),
    )
}

/// Whether a binding's current type plausibly is a list, at the ghost
/// level: not `Never`, and intersecting `list[Any]`.
pub open spec fn plausibly_list_v(
    o: &crate::oracle::TypingOracle,
    cur: crate::ty::TyV,
) -> bool {
    !cur.is_never() && crate::oracle::intersects_v(o, cur, crate::ty::list_v(crate::ty::any_v()))
}

/// The type a binding slot holds during solving: its table entry, or
/// `Never` where nothing has flowed in yet.
pub open spec fn binding_ty_v(types: Seq<Option<Ty>>, b: usize) -> crate::ty::TyV {
    if b < types.len() && types[b as int] is Some {
        ty_v(types[b as int]->0)
    } else {
        crate::ty::never_v()
    }
}

/// The type an identifier expression reads from a binding slot: its table
/// entry, or `Any` where the slot is unset or unknown (the checker never
/// invents an error for a slot it cannot see).
pub open spec fn slot_ty_v(types: Seq<Option<Ty>>, b: usize) -> crate::ty::TyV {
    if b < types.len() && types[b as int] is Some {
        ty_v(types[b as int]->0)
    } else {
        crate::ty::any_v()
    }
}

/// The type of a literal.
pub open spec fn lit_ty_v(l: Lit) -> crate::ty::TyV {
    match l {
        Lit::Int(_) => crate::ty::int_v(),
        Lit::Float(_) => crate::ty::float_v(),
        Lit::Str(_) => crate::ty::string_v(),
    }
}

/// The walk never touches the oracle, the global scope or the binding
/// table: only the two diagnostic accumulators change, and what changes in
/// them is stated function by function.
pub open spec fn ctx_tables_same(a: &TypingContext, b: &TypingContext) -> bool {
    &&& a.oracle == b.oracle
    &&& a.global_docs == b.global_docs
    &&& a.types == b.types
}

impl TypingContext {
    /// Record a violation and produce `Never` for the failed path.
    pub fn add_error(&mut self, span: Span, kind: TypingErrorKind) -> (r: Ty)
        requires
            ctx_wf(&*old(self)),
        ensures
            ctx_wf(&*final(self)),
            ctx_tables_same(&*old(self), &*final(self)),
            final(self).errors@ == old(self).errors@.push(TypingError { span, kind }),
            final(self).approximations == old(self).approximations,
            wf_ty(r@),
            r@ == crate::ty::never_v(),
    {
        self.errors.push(TypingError::new(span, kind));
        Ty::never()
    }

    /// Record an approximation and produce `Any` for the unmodelled path.
    pub fn approximation(&mut self, category: &str, message: &str) -> (r: Ty)
        requires
            ctx_wf(&*old(self)),
        ensures
            ctx_wf(&*final(self)),
            ctx_tables_same(&*old(self), &*final(self)),
            final(self).errors == old(self).errors,
            final(self).approximations@.len() == old(self).approximations@.len() + 1,
            forall|j: int|
                0 <= j < old(self).approximations@.len() ==> final(self).approximations@[j] == old(
                    self,
                ).approximations@[j],
            final(self).approximations@.last().category@ == category@,
            final(self).approximations@.last().message@ == message@,
            r@ == crate::ty::any_v(),
    {
        self.approximations.push(Approximation::new(category, message));
        Ty::any()
    }

    /// Validate a call, recording its error if any; the call's type is the
    /// result on success and `Never` on failure.
    pub fn validate_call(&mut self, fun: &Ty, args: &Vec<Spanned<Arg>>, span: Span) -> (r: Ty)
        requires
            ctx_wf(&*old(self)),
            wf_ty(fun@),
        ensures
            ctx_wf(&*final(self)),
            ctx_tables_same(&*old(self), &*final(self)),
            final(self).approximations == old(self).approximations,
            match crate::oracle::validate_call_v(
                &old(self).oracle.oracle,
                fun@,
                crate::oracle::args_v(args@),
                span,
            ) {
                Result::Ok(t) => r@ == t && final(self).errors == old(self).errors,
                Result::Err(e) => r@ == crate::ty::never_v() && errs_grew_by(
                    old(self).errors@,
                    final(self).errors@,
                    e,
                ),
            },
            wf_ty(r@),
    {
        match self.oracle.validate_call(span, fun, args) {
            Result::Ok(t) => t,
            Result::Err(e) => {
                self.errors.push(e);
                Ty::never()
            },
        }
    }

    /// The element type obtained by iterating `ty`: its `Iter`
    /// pseudo-attribute, with the same outcome and diagnostics.
    pub fn from_iterated(&mut self, ty: &Ty, span: Span) -> (r: Ty)
        requires
            ctx_wf(&*old(self)),
            wf_ty(ty@),
        ensures
            ctx_wf(&*final(self)),
            ctx_tables_same(&*old(self), &*final(self)),
            final(self).approximations == old(self).approximations,
            match crate::oracle::attribute_ty_v(
                &old(self).oracle.oracle,
                ty@,
                crate::ops::TypingAttrV::Iter,
            ) {
                Option::Some(t) => r@ == t && final(self).errors == old(self).errors,
                Option::None => r@ == crate::ty::never_v() && errs_grew_by(
                    old(self).errors@,
                    final(self).errors@,
                    crate::error::TypingErrorV {
                        span,
                        kind: crate::error::TypingErrorKindV::AttributeNotAvailable {
                            ty: ty@,
                            attr: crate::ops::TypingAttrV::Iter,
                        },
                    },
                ),
            },
            wf_ty(r@),
    {
        self.expression_attribute(ty, TypingAttr::Iter, span)
    }

    /// Check that `got` may stand where `require` is asked, recording the
    /// violation if not.
    pub fn validate_type(&mut self, got: &Ty, require: &Ty, span: Span)
        requires
            ctx_wf(&*old(self)),
        ensures
            ctx_wf(&*final(self)),
            ctx_tables_same(&*old(self), &*final(self)),
            final(self).approximations == old(self).approximations,
            crate::oracle::intersects_v(&old(self).oracle.oracle, got@, require@)
                ==> final(self).errors == old(self).errors,
            !crate::oracle::intersects_v(&old(self).oracle.oracle, got@, require@) ==> errs_grew_by(
                old(self).errors@,
                final(self).errors@,
                crate::error::TypingErrorV {
                    span,
                    kind: crate::error::TypingErrorKindV::IncompatibleType {
                        got: got@,
                        require: require@,
                    },
                },
            ),
    {
        match self.oracle.validate_type(got, require, span) {
            Result::Ok(()) => {},
            Result::Err(e) => {
                self.errors.push(e);
            },
        }
    }

    /// The type of a global name, erring where the scope does not know it.
    pub fn builtin(&mut self, name: &String, span: Span) -> (r: Ty)
        requires
            ctx_wf(&*old(self)),
        ensures
            ctx_wf(&*final(self)),
            ctx_tables_same(&*old(self), &*final(self)),
            final(self).approximations == old(self).approximations,
            match crate::oracle::global_lookup_v(old(self).global_docs.globals@, 0, name@) {
                Option::Some(t) => r@ == t && final(self).errors == old(self).errors,
                Option::None => r@ == crate::ty::never_v() && errs_grew_by(
                    old(self).errors@,
                    final(self).errors@,
                    crate::error::TypingErrorV {
                        span,
                        kind: crate::error::TypingErrorKindV::UnknownBuiltin { name: name@ },
                    },
                ),
            },
            wf_ty(r@),
    {
        match self.global_docs.builtin(name) {
            Result::Ok(t) => t,
            Result::Err(()) => {
                let kind = TypingErrorKind::UnknownBuiltin { name: name.clone() };
                self.add_error(span, kind)
            },
        }
    }

    /// The type of an attribute (or operator pseudo-attribute) of `ty`,
    /// erring where no alternative offers it.
    pub fn expression_attribute(&mut self, ty: &Ty, attr: TypingAttr, span: Span) -> (r: Ty)
        requires
            ctx_wf(&*old(self)),
            wf_ty(ty@),
        ensures
            ctx_wf(&*final(self)),
            ctx_tables_same(&*old(self), &*final(self)),
            final(self).approximations == old(self).approximations,
            match crate::oracle::attribute_ty_v(&old(self).oracle.oracle, ty@, attr@) {
                Option::Some(t) => r@ == t && final(self).errors == old(self).errors,
                Option::None => r@ == crate::ty::never_v() && errs_grew_by(
                    old(self).errors@,
                    final(self).errors@,
                    crate::error::TypingErrorV {
                        span,
                        kind: crate::error::TypingErrorKindV::AttributeNotAvailable {
                            ty: ty@,
                            attr: attr@,
                        },
                    },
                ),
            },
            wf_ty(r@),
    {
        match self.oracle.attribute_ty(ty, &attr) {
            Result::Ok(t) => t,
            Result::Err(()) => {
                let kind = TypingErrorKind::AttributeNotAvailable { ty: ty.clone(), attr };
                self.add_error(span, kind)
            },
        }
    }

    /// Resolve `attr` of `arg0` to a callable and validate the call with
    /// one positional argument: the shared path for indexing and the
    /// augmented assignments.
    pub fn expression_primitive_ty(
        &mut self,
        attr: TypingAttr,
        arg0: Ty,
        arg1: Spanned<Ty>,
        span: Span,
    ) -> (r: Ty)
        requires
            ctx_wf(&*old(self)),
            wf_ty(ty_v(arg0)),
            wf_ty(ty_v(arg1.node)),
        ensures
            ctx_wf(&*final(self)),
            ctx_tables_same(&*old(self), &*final(self)),
            final(self).approximations == old(self).approximations,
            ({
                let (es, rv) = prim_outcome_v(
                    &old(self).oracle.oracle,
                    ty_v(arg0),
                    attr@,
                    arg1.span,
                    ty_v(arg1.node),
                    span,
                );
                r@ == rv && errs_grew(old(self).errors@, final(self).errors@, es)
            }),
            wf_ty(r@),
    {
        let ghost a0 = ty_v(arg0);
        let ghost a1 = ty_v(arg1.node);
        let fun = self.expression_attribute(&arg0, attr, span);
        let mut args: Vec<Spanned<Arg>> = Vec::new();
        args.push(Spanned { span: arg1.span, node: Arg::Pos(arg1.node) });
        proof {
            assert(crate::oracle::args_v(args@) =~= seq![
                (arg1.span, crate::oracle::ArgV::Pos(a1)),
            ]);
        }
        self.validate_call(&fun, &args, span)
    }

    /// The result of a unary operator: `Never` and `Any` pass through; each
    /// concrete alternative whose capability flag for the operator is set
    /// keeps its type; one error is raised where no alternative offers it.
    pub fn expression_un_op(&mut self, span: Span, ty: Ty, un_op: TypingUnOp) -> (r: Ty)
        requires
            ctx_wf(&*old(self)),
            wf_ty(ty_v(ty)),
        ensures
            ctx_wf(&*final(self)),
            ctx_tables_same(&*old(self), &*final(self)),
            final(self).approximations == old(self).approximations,
            ({
                let tv = ty_v(ty);
                if tv.is_never() || tv.is_any() {
                    r@ == tv && final(self).errors == old(self).errors
                } else {
                    let kept = un_op_kept_v(tv.alts, un_op, 0, Seq::empty());
                    if kept.len() > 0 {
                        r@ == crate::ty::unions_v(kept, 0, crate::ty::never_v())
                            && final(self).errors == old(self).errors
                    } else {
                        r@ == crate::ty::never_v() && errs_grew_by(
                            old(self).errors@,
                            final(self).errors@,
                            crate::error::TypingErrorV {
                                span,
                                kind: crate::error::TypingErrorKindV::UnaryOperatorNotAvailable {
                                    un_op,
                                    ty: tv,
                                },
                            },
                        )
                    }
                }
            }),
            wf_ty(r@),
    {
        if ty.is_never() || ty.is_any() {
            return ty;
        }
        proof {
            crate::ty::lemma_ty_mirror(ty);
            crate::ty::lemma_wf_alts(ty@.alts, 0);
        }
        let ghost tv = ty_v(ty);
        let mut results: Vec<Ty> = Vec::new();
        let n = ty.alternatives.len();
        proof {
            assert(crate::ty::tyseq_v(results@) =~= Seq::<crate::ty::TyV>::empty());
        }
        for i in 0..n
            invariant
                n == ty.alternatives@.len(),
                tv == ty_v(ty),
                tv.alts.len() == n,
                forall|j: int|
                    0 <= j < n ==> tv.alts[j] == crate::ty::basic_v(
                        #[trigger] ty.alternatives@[j],
                    ),
                forall|j: int| 0 <= j < n ==> wf_basic(#[trigger] tv.alts[j]),
                forall|j: int| 0 <= j < results@.len() ==> wf_ty(ty_v(#[trigger] results@[j])),
                un_op_kept_v(tv.alts, un_op, i as int, crate::ty::tyseq_v(results@))
                    == un_op_kept_v(tv.alts, un_op, 0, Seq::empty()),
        {
            let ghost before = crate::ty::tyseq_v(results@);
            match &ty.alternatives[i] {
                TyBasic::StarlarkValue(sv) => {
                    match sv.un_op(un_op) {
                        Result::Ok(sv2) => {
                            let b = TyBasic::StarlarkValue(sv2);
                            proof {
                                assert(wf_basic(crate::ty::basic_v(b)));
                            }
                            results.push(Ty::basic(b));
                            proof {
                                assert(crate::ty::tyseq_v(results@) =~= before.push(
                                    ty_v(results@[results@.len() - 1]),
                                ));
                                assert(ty_v(results@[results@.len() - 1]) == (crate::ty::TyV {
                                    alts: seq![tv.alts[i as int]],
                                }));
                            }
                        },
                        Result::Err(()) => {},
                    }
                },
                _ => {
                    // Only concrete runtime types support unary operators.
                },
            }
        }
        if results.len() == 0 {
            proof {
                assert(crate::ty::tyseq_v(results@) =~= Seq::<crate::ty::TyV>::empty());
            }
            let kind = TypingErrorKind::UnaryOperatorNotAvailable { un_op, ty };
            self.add_error(span, kind)
        } else {
            proof {
                assert forall|j: int|
                    0 <= j < crate::ty::tyseq_v(results@).len() implies wf_ty(
                    #[trigger] crate::ty::tyseq_v(results@)[j],
                ) by {
                    assert(crate::ty::tyseq_v(results@)[j] == ty_v(results@[j]));
                }
            }
            Ty::unions(&results)
        }
    }

    /// The result of one alternative pair under a binary operator: a
    /// concrete left operand uses its own operator table; everything else
    /// resolves the operator pseudo-attribute and validates a call with the
    /// right operand. A failed pair records nothing: the pairwise analysis
    /// above decides whether to err.
    pub fn expr_bin_op_ty_basic(
        &mut self,
        span: Span,
        lhs: &Spanned<TyBasic>,
        bin_op: TypingBinOp,
        rhs: &Spanned<TyBasic>,
    ) -> (r: Result<Ty, ()>)
        requires
            ctx_wf(&*old(self)),
            wf_basic(lhs.node@),
            wf_basic(rhs.node@),
        ensures
            ctx_wf(&*final(self)),
            ctx_tables_same(&*old(self), &*final(self)),
            final(self).errors == old(self).errors,
            final(self).approximations == old(self).approximations,
            match r {
                Result::Ok(t) => bin_basic_outcome_v(
                    &old(self).oracle.oracle,
                    lhs.node@,
                    bin_op,
                    rhs.span,
                    rhs.node@,
                    span,
                ) == Option::Some(t@) && wf_ty(t@),
                Result::Err(()) => bin_basic_outcome_v(
                    &old(self).oracle.oracle,
                    lhs.node@,
                    bin_op,
                    rhs.span,
                    rhs.node@,
                    span,
                ) is None,
            },
    {
        match &lhs.node {
            TyBasic::StarlarkValue(sv) => {
                return sv.bin_op(&self.oracle, bin_op, &rhs.node);
            },
            _ => {},
        }
        match self.oracle.resolve_attr(&lhs.node, &TypingAttr::BinOp(bin_op)) {
            Option::None => Result::Err(()),
            Option::Some(fun) => {
                let ghost rbv = rhs.node@;
                let mut args: Vec<Spanned<Arg>> = Vec::new();
                let rb = rhs.node.clone();
                args.push(Spanned { span: rhs.span, node: Arg::Pos(Ty::basic(rb)) });
                proof {
                    assert(crate::oracle::args_v(args@) =~= seq![
                        (
                            rhs.span,
                            crate::oracle::ArgV::Pos(crate::ty::TyV { alts: seq![rbv] }),
                        ),
                    ]);
                }
                match self.oracle.validate_call(span, &fun, &args) {
                    Result::Ok(t) => Result::Ok(t),
                    Result::Err(_) => Result::Err(()),
                }
            },
        }
    }

    /// The result of a binary operator over two unions: every pair of
    /// alternatives is tried, one success forgives the failures (the union
    /// of the successful pairs is the result), and one error is raised only
    /// where every pair failed.
    pub fn expr_bin_op_ty(
        &mut self,
        span: Span,
        lhs: Spanned<Ty>,
        bin_op: TypingBinOp,
        rhs: Spanned<Ty>,
    ) -> (r: Ty)
        requires
            ctx_wf(&*old(self)),
            wf_ty(ty_v(lhs.node)),
            wf_ty(ty_v(rhs.node)),
        ensures
            ctx_wf(&*final(self)),
            ctx_tables_same(&*old(self), &*final(self)),
            final(self).approximations == old(self).approximations,
            ({
                let lv = ty_v(lhs.node);
                let rv = ty_v(rhs.node);
                if lv.is_never() || rv.is_never() {
                    r@ == crate::ty::never_v() && final(self).errors == old(self).errors
                } else {
                    let good = bin_pairs_v(
                        &old(self).oracle.oracle,
                        lv.alts,
                        bin_op,
                        rv.alts,
                        rhs.span,
                        span,
                        0,
                        0,
                        Seq::empty(),
                    );
                    if good.len() > 0 {
                        r@ == crate::ty::unions_v(good, 0, crate::ty::never_v())
                            && final(self).errors == old(self).errors
                    } else {
                        r@ == crate::ty::never_v() && errs_grew_by(
                            old(self).errors@,
                            final(self).errors@,
                            crate::error::TypingErrorV {
                                span,
                                kind: crate::error::TypingErrorKindV::BinaryOperatorNotAvailable {
                                    bin_op,
                                    left: lv,
                                    right: rv,
                                },
                            },
                        )
                    }
                }
            }),
            wf_ty(r@),
    {
        if lhs.node.is_never() || rhs.node.is_never() {
            return Ty::never();
        }
        proof {
            crate::ty::lemma_ty_mirror(lhs.node);
            crate::ty::lemma_ty_mirror(rhs.node);
            crate::ty::lemma_wf_alts(ty_v(lhs.node).alts, 0);
            crate::ty::lemma_wf_alts(ty_v(rhs.node).alts, 0);
        }
        let ghost lv = ty_v(lhs.node);
        let ghost rv = ty_v(rhs.node);
        let mut good: Vec<Ty> = Vec::new();
        let n = lhs.node.alternatives.len();
        let mm = rhs.node.alternatives.len();
        proof {
            assert(crate::ty::tyseq_v(good@) =~= Seq::<crate::ty::TyV>::empty());
        }
        for i in 0..n
            invariant
                n == lhs.node.alternatives@.len(),
                mm == rhs.node.alternatives@.len(),
                lv == ty_v(lhs.node),
                rv == ty_v(rhs.node),
                lv.alts.len() == n,
                rv.alts.len() == mm,
                ctx_wf(&*self),
                ctx_tables_same(&*old(self), &*self),
                errs_appended(old(self).errors@, self.errors@),
                approx_appended(old(self).approximations@, self.approximations@),
                self.errors == old(self).errors,
                self.approximations == old(self).approximations,
                forall|q: int|
                    0 <= q < n ==> lv.alts[q] == crate::ty::basic_v(
                        #[trigger] lhs.node.alternatives@[q],
                    ),
                forall|q: int|
                    0 <= q < mm ==> rv.alts[q] == crate::ty::basic_v(
                        #[trigger] rhs.node.alternatives@[q],
                    ),
                forall|q: int| 0 <= q < n ==> wf_basic(#[trigger] lv.alts[q]),
                forall|q: int| 0 <= q < mm ==> wf_basic(#[trigger] rv.alts[q]),
                forall|q: int| 0 <= q < good@.len() ==> wf_ty(ty_v(#[trigger] good@[q])),
                bin_pairs_v(
                    &self.oracle.oracle,
                    lv.alts,
                    bin_op,
                    rv.alts,
                    rhs.span,
                    span,
                    i as int,
                    0,
                    crate::ty::tyseq_v(good@),
                ) == bin_pairs_v(
                    &self.oracle.oracle,
                    lv.alts,
                    bin_op,
                    rv.alts,
                    rhs.span,
                    span,
                    0,
                    0,
                    Seq::empty(),
                ),
        {
            for j in 0..mm
                invariant
                    i < n,
                    n == lhs.node.alternatives@.len(),
                    mm == rhs.node.alternatives@.len(),
                    lv == ty_v(lhs.node),
                    rv == ty_v(rhs.node),
                    lv.alts.len() == n,
                    rv.alts.len() == mm,
                    ctx_wf(&*self),
                    ctx_tables_same(&*old(self), &*self),
                errs_appended(old(self).errors@, self.errors@),
                approx_appended(old(self).approximations@, self.approximations@),
                    self.errors == old(self).errors,
                    self.approximations == old(self).approximations,
                    forall|q: int|
                        0 <= q < n ==> lv.alts[q] == crate::ty::basic_v(
                            #[trigger] lhs.node.alternatives@[q],
                        ),
                    forall|q: int|
                        0 <= q < mm ==> rv.alts[q] == crate::ty::basic_v(
                            #[trigger] rhs.node.alternatives@[q],
                        ),
                    forall|q: int| 0 <= q < n ==> wf_basic(#[trigger] lv.alts[q]),
                    forall|q: int| 0 <= q < mm ==> wf_basic(#[trigger] rv.alts[q]),
                    forall|q: int| 0 <= q < good@.len() ==> wf_ty(ty_v(#[trigger] good@[q])),
                    bin_pairs_v(
                        &self.oracle.oracle,
                        lv.alts,
                        bin_op,
                        rv.alts,
                        rhs.span,
                        span,
                        i as int,
                        j as int,
                        crate::ty::tyseq_v(good@),
                    ) == bin_pairs_v(
                        &self.oracle.oracle,
                        lv.alts,
                        bin_op,
                        rv.alts,
                        rhs.span,
                        span,
                        0,
                        0,
                        Seq::empty(),
                    ),
            {
                let ghost before = crate::ty::tyseq_v(good@);
                let li = Spanned { span: lhs.span, node: lhs.node.alternatives[i].clone() };
                let rj = Spanned { span: rhs.span, node: rhs.node.alternatives[j].clone() };
                match self.expr_bin_op_ty_basic(span, &li, bin_op, &rj) {
                    Result::Ok(t) => {
                        good.push(t);
                        proof {
                            assert(crate::ty::tyseq_v(good@) =~= before.push(
                                ty_v(good@[good@.len() - 1]),
                            ));
                        }
                    },
                    Result::Err(()) => {},
                }
            }
        }
        if good.len() == 0 {
            proof {
                assert(crate::ty::tyseq_v(good@) =~= Seq::<crate::ty::TyV>::empty());
            }
            let kind = TypingErrorKind::BinaryOperatorNotAvailable {
                bin_op,
                left: lhs.node,
                right: rhs.node,
            };
            self.add_error(span, kind)
        } else {
            proof {
                assert forall|q: int|
                    0 <= q < crate::ty::tyseq_v(good@).len() implies wf_ty(
                    #[trigger] crate::ty::tyseq_v(good@)[q],
                ) by {
                    assert(crate::ty::tyseq_v(good@)[q] == ty_v(good@[q]));
                }
            }
            Ty::unions(&good)
        }
    }

    /// The type of the expression at `e`, by structural cases. For the
    /// shapes whose type depends on nothing but the tables (literals and
    /// resolved identifiers), the result is pinned to a function of those
    /// tables, so inferring such an expression twice, nothing mutated in
    /// between, must yield the same type.
    #[verifier::rlimit(60)]
    pub fn expression_type(&mut self, m: &AstModule, e: usize) -> (r: Ty)
        requires
            ctx_wf(&*old(self)),
            crate::syntax::module_wf(m),
        ensures
            ctx_wf(&*final(self)),
            ctx_tables_same(&*old(self), &*final(self)),
            wf_ty(r@),
            errs_appended(old(self).errors@, final(self).errors@),
            approx_appended(old(self).approximations@, final(self).approximations@),
            e < m.exprs@.len() ==> match m.exprs@[e as int].kind {
                ExprKind::Literal(l) => r@ == lit_ty_v(l) && final(self).errors == old(self).errors
                    && final(self).approximations == old(self).approximations,
                ExprKind::Identifier(IdentRef::Slot(b)) => r@ == slot_ty_v(old(self).types@, b)
                    && final(self).errors == old(self).errors
                    && final(self).approximations == old(self).approximations,
                ExprKind::Identifier(IdentRef::Global(g)) => match crate::oracle::global_lookup_v(
                    old(self).global_docs.globals@,
                    0,
                    g@,
                ) {
                    Option::Some(t) => r@ == t && final(self).errors == old(self).errors,
                    Option::None => r@ == crate::ty::never_v() && errs_grew_by(
                        old(self).errors@,
                        final(self).errors@,
                        crate::error::TypingErrorV {
                            span: m.exprs@[e as int].span,
                            kind: crate::error::TypingErrorKindV::UnknownBuiltin { name: g@ },
                        },
                    ),
                },
                ExprKind::Identifier(IdentRef::Unresolved) => r@ == crate::ty::any_v()
                    && final(self).errors == old(self).errors,
                ExprKind::Tuple(xs) => (exists|ts: Seq<crate::ty::TyV>|
                    ts.len() == xs@.len() && r@ == crate::ty::tuple_v(ts)),
                ExprKind::List(xs) => (exists|ts: Seq<crate::ty::TyV>|
                    #![trigger crate::ty::unions_v(ts, 0, crate::ty::never_v())]
                    ts.len() == xs@.len() && r@ == crate::ty::list_v(
                        crate::ty::unions_v(ts, 0, crate::ty::never_v()),
                    ) && (forall|j: int|
                        0 <= j < ts.len() && (xs@[j] as int) < e && m.exprs@[xs@[j] as int].kind
                            is Literal ==> #[trigger] ts[j] == lit_ty_v(
                            m.exprs@[xs@[j] as int].kind->Literal_0,
                        ))),
                ExprKind::Dict(kvs) => (exists|ks: Seq<crate::ty::TyV>, vs: Seq<crate::ty::TyV>|
                    #![trigger crate::ty::unions_v(ks, 0, crate::ty::never_v()), crate::ty::unions_v(vs, 0, crate::ty::never_v())]
                    ks.len() == kvs@.len() && vs.len() == kvs@.len() && r@ == crate::ty::dict_v(
                        crate::ty::unions_v(ks, 0, crate::ty::never_v()),
                        crate::ty::unions_v(vs, 0, crate::ty::never_v()),
                    ) && (forall|j: int|
                        0 <= j < ks.len() && (kvs@[j].0 as int) < e
                            && m.exprs@[kvs@[j].0 as int].kind is Literal ==> #[trigger] ks[j]
                            == lit_ty_v(m.exprs@[kvs@[j].0 as int].kind->Literal_0)) && (forall|
                        j: int,
                    |
                        0 <= j < vs.len() && (kvs@[j].1 as int) < e
                            && m.exprs@[kvs@[j].1 as int].kind is Literal ==> #[trigger] vs[j]
                            == lit_ty_v(m.exprs@[kvs@[j].1 as int].kind->Literal_0))),
                ExprKind::ListComprehension(_, _, _) => (exists|elem: crate::ty::TyV|
                    r@ == crate::ty::list_v(elem)),
                ExprKind::DictComprehension(_, _, _, _) => (exists|
                    kv: crate::ty::TyV,
                    vv: crate::ty::TyV,
                |
                    r@ == crate::ty::dict_v(kv, vv)),
                ExprKind::Not(_) => r@ == crate::ty::bool_v() || r@ == crate::ty::never_v(),
                ExprKind::FString => r@ == crate::ty::string_v()
                    && final(self).errors == old(self).errors,
                ExprKind::Lambda => r@ == crate::ty::function_v(
                    seq![
                        crate::ty::ParamV {
                            mode: crate::ty::ParamModeV::Args,
                            optional: true,
                            ty: crate::ty::any_v(),
                        },
                        crate::ty::ParamV {
                            mode: crate::ty::ParamModeV::Kwargs,
                            optional: true,
                            ty: crate::ty::any_v(),
                        },
                    ],
                    crate::ty::any_v(),
                ) && final(self).errors == old(self).errors
                    && final(self).approximations@.len() == old(self).approximations@.len() + 1
                    && (forall|j: int|
                    0 <= j < old(self).approximations@.len() ==> final(self).approximations@[j]
                        == old(self).approximations@[j])
                    && final(self).approximations@.last().category@ == "Unmodelled"@
                    && final(self).approximations@.last().message@ == "lambda body"@,
                ExprKind::Index(_, _) => r@ == crate::ty::any_v() || (exists|
                    a0: crate::ty::TyV,
                    a1span: Span,
                    a1: crate::ty::TyV,
                |
                    r@ == prim_outcome_v(
                        &old(self).oracle.oracle,
                        a0,
                        crate::ops::TypingAttrV::Index,
                        a1span,
                        a1,
                        m.exprs@[e as int].span,
                    ).1),
                ExprKind::Index2(_, _, _) => r@ == crate::ty::any_v(),
                ExprKind::Call(_, _) => (exists|
                    fv: crate::ty::TyV,
                    s: Seq<(Span, crate::oracle::ArgV)>,
                |
                    #![trigger crate::oracle::validate_call_v(
                        &old(self).oracle.oracle,
                        fv,
                        s,
                        m.exprs@[e as int].span,
                    )]
                    r@ == (match crate::oracle::validate_call_v(
                        &old(self).oracle.oracle,
                        fv,
                        s,
                        m.exprs@[e as int].span,
                    ) {
                        Result::Ok(t) => t,
                        Result::Err(_) => crate::ty::never_v(),
                    })),
                ExprKind::Dot(_, name) => (exists|t0: crate::ty::TyV|
                    #![trigger crate::oracle::attribute_ty_v(
                        &old(self).oracle.oracle,
                        t0,
                        crate::ops::TypingAttrV::Regular(name@),
                    )]
                    r@ == (match crate::oracle::attribute_ty_v(
                        &old(self).oracle.oracle,
                        t0,
                        crate::ops::TypingAttrV::Regular(name@),
                    ) {
                        Option::Some(t) => t,
                        Option::None => crate::ty::never_v(),
                    })),
                ExprKind::Slice(_, _, _, _) => (exists|t0: crate::ty::TyV|
                    #![trigger crate::oracle::attribute_ty_v(
                        &old(self).oracle.oracle,
                        t0,
                        crate::ops::TypingAttrV::Slice,
                    )]
                    r@ == (match crate::oracle::attribute_ty_v(
                        &old(self).oracle.oracle,
                        t0,
                        crate::ops::TypingAttrV::Slice,
                    ) {
                        Option::Some(t) => t,
                        Option::None => crate::ty::never_v(),
                    })),
                ExprKind::Minus(_) => (exists|tv: crate::ty::TyV|
                    #![trigger un_op_result_v(tv, TypingUnOp::Minus)]
                    r@ == un_op_result_v(tv, TypingUnOp::Minus)),
                ExprKind::Plus(_) => (exists|tv: crate::ty::TyV|
                    #![trigger un_op_result_v(tv, TypingUnOp::Plus)]
                    r@ == un_op_result_v(tv, TypingUnOp::Plus)),
                ExprKind::BitNot(_) => (exists|tv: crate::ty::TyV|
                    #![trigger un_op_result_v(tv, TypingUnOp::BitNot)]
                    r@ == un_op_result_v(tv, TypingUnOp::BitNot)),
                ExprKind::Op(_, op2, _) => (exists|
                    lv: crate::ty::TyV,
                    rv: crate::ty::TyV,
                    rspan: Span,
                |
                    #![trigger bin_expr_result_v(
                        &old(self).oracle.oracle,
                        lv,
                        op2,
                        rv,
                        rspan,
                        m.exprs@[e as int].span,
                    )]
                    r@ == bin_expr_result_v(
                        &old(self).oracle.oracle,
                        lv,
                        op2,
                        rv,
                        rspan,
                        m.exprs@[e as int].span,
                    )),
                ExprKind::IfExpr(_, _, _) => r@ == crate::ty::never_v() || (exists|
                    tv: crate::ty::TyV,
                    fv2: crate::ty::TyV,
                |
                    r@ == crate::ty::union2_v(tv, fv2)),
            },
        decreases e, 1int,
    {
        if e >= m.exprs.len() {
            return Ty::any();
        }
        let span = m.exprs[e].span;
        match &m.exprs[e].kind {
            ExprKind::Tuple(xs) => {
                let mut ts: Vec<Ty> = Vec::new();
                let n = xs.len();
                for i in 0..n
                    invariant
                        n == xs@.len(),
                        ts@.len() == i,
                        crate::syntax::module_wf(m),
                        ctx_wf(&*self),
                        ctx_tables_same(&*old(self), &*self),
                errs_appended(old(self).errors@, self.errors@),
                approx_appended(old(self).approximations@, self.approximations@),
                        errs_appended(old(self).errors@, self.errors@),
                        approx_appended(old(self).approximations@, self.approximations@),
                        forall|j: int| 0 <= j < ts@.len() ==> wf_ty(ty_v(#[trigger] ts@[j])),
                {
                    let c = xs[i];
                    let t = if c < e {
                        self.expression_type(m, c)
                    } else {
                        Ty::any()
                    };
                    ts.push(t);
                }
                proof {
                    assert forall|j: int|
                        0 <= j < ts@.len() implies wf_ty(ty_v(#[trigger] ts@[j])) by {}
                }
                let ghost tsv = crate::ty::tyseq_v(ts@);
                let out = Ty::tuple(ts);
                proof {
                    assert(tsv.len() == n);
                    assert(out@ == crate::ty::tuple_v(tsv));
                }
                out
            },
            ExprKind::Dot(a, name) => {
                let c = *a;
                let nm = name.clone();
                let ghost nmv = nm@;
                let t = if c < e {
                    self.expression_type(m, c)
                } else {
                    Ty::any()
                };
                let ghost t0 = ty_v(t);
                let out = self.expression_attribute(&t, TypingAttr::Regular(nm), span);
                proof {
                    assert(out@ == (match crate::oracle::attribute_ty_v(
                        &old(self).oracle.oracle,
                        t0,
                        crate::ops::TypingAttrV::Regular(nmv),
                    ) {
                        Option::Some(t2) => t2,
                        Option::None => crate::ty::never_v(),
                    }));
                }
                out
            },
            ExprKind::Call(f, args) => {
                let fe = *f;
                let mut args_ty: Vec<Spanned<Arg>> = Vec::new();
                let n = args.len();
                for i in 0..n
                    invariant
                        n == args@.len(),
                        crate::syntax::module_wf(m),
                        e < m.exprs@.len(),
                        ctx_wf(&*self),
                        ctx_tables_same(&*old(self), &*self),
                errs_appended(old(self).errors@, self.errors@),
                approx_appended(old(self).approximations@, self.approximations@),
                        errs_appended(old(self).errors@, self.errors@),
                        approx_appended(old(self).approximations@, self.approximations@),
                {
                    let a_span = args[i].span;
                    let node: Arg = match &args[i].kind {
                        ArgKind::Pos(x) => {
                            let c = *x;
                            let t = if c < e {
                                self.expression_type(m, c)
                            } else {
                                Ty::any()
                            };
                            Arg::Pos(t)
                        },
                        ArgKind::Named(nm, x) => {
                            let c = *x;
                            let t = if c < e {
                                self.expression_type(m, c)
                            } else {
                                Ty::any()
                            };
                            Arg::Name(nm.clone(), t)
                        },
                        ArgKind::Args(x) => {
                            let c = *x;
                            let t = if c < e {
                                self.expression_type(m, c)
                            } else {
                                Ty::any()
                            };
                            // A positional spread must be iterable.
                            self.from_iterated(&t, a_span);
                            Arg::Args(t)
                        },
                        ArgKind::Kwargs(x) => {
                            let c = *x;
                            let t = if c < e {
                                self.expression_type(m, c)
                            } else {
                                Ty::any()
                            };
                            // A keyword spread must be a string-keyed dict.
                            let want = Ty::dict(Ty::string(), Ty::any());
                            self.validate_type(&t, &want, a_span);
                            Arg::Kwargs(t)
                        },
                    };
                    args_ty.push(Spanned { span: a_span, node });
                }
                let f_ty = if fe < e {
                    self.expression_type(m, fe)
                } else {
                    Ty::any()
                };
                let ghost fv = ty_v(f_ty);
                let ghost sv2 = crate::oracle::args_v(args_ty@);
                let out = self.validate_call(&f_ty, &args_ty, span);
                proof {
                    assert(out@ == (match crate::oracle::validate_call_v(
                        &old(self).oracle.oracle,
                        fv,
                        sv2,
                        m.exprs@[e as int].span,
                    ) {
                        Result::Ok(t) => t,
                        Result::Err(_) => crate::ty::never_v(),
                    }));
                }
                out
            },
            ExprKind::Index(a, b) => {
                let (ae, be) = (*a, *b);
                let t0 = if ae < e {
                    self.expression_type(m, ae)
                } else {
                    Ty::any()
                };
                let bspan = if be < m.exprs.len() {
                    m.exprs[be].span
                } else {
                    span
                };
                let t1 = if be < e {
                    self.expression_type(m, be)
                } else {
                    Ty::any()
                };
                // `list[str]` written as a type is a value of type `function`
                // indexed by a type: treat it as a type, not an indexing
                // error.
                if t0.is_function() {
                    if ae < m.exprs.len() {
                        match &m.exprs[ae].kind {
                            ExprKind::Identifier(IdentRef::Global(g)) => {
                                if *g == new_string("list") {
                                    return Ty::any();
                                }
                            },
                            _ => {},
                        }
                    }
                }
                let ghost (g0, gs, g1) = (ty_v(t0), bspan, ty_v(t1));
                let out = self.expression_primitive_ty(
                    TypingAttr::Index,
                    t0,
                    Spanned { span: bspan, node: t1 },
                    span,
                );
                proof {
                    assert(out@ == prim_outcome_v(
                        &old(self).oracle.oracle,
                        g0,
                        crate::ops::TypingAttrV::Index,
                        gs,
                        g1,
                        m.exprs@[e as int].span,
                    ).1);
                }
                out
            },
            ExprKind::Index2(a, i0, i1) => {
                let (ae, b0, b1) = (*a, *i0, *i1);
                if ae < e {
                    self.expression_type(m, ae);
                }
                if b0 < e {
                    self.expression_type(m, b0);
                }
                if b1 < e {
                    self.expression_type(m, b1);
                }
                Ty::any()
            },
            ExprKind::Slice(x, start, stop, stride) => {
                let xe = *x;
                let bounds = [*start, *stop, *stride];
                for i in 0..3usize
                    invariant
                        crate::syntax::module_wf(m),
                        e < m.exprs@.len(),
                        ctx_wf(&*self),
                        ctx_tables_same(&*old(self), &*self),
                errs_appended(old(self).errors@, self.errors@),
                approx_appended(old(self).approximations@, self.approximations@),
                        errs_appended(old(self).errors@, self.errors@),
                        approx_appended(old(self).approximations@, self.approximations@),
                {
                    match bounds[i] {
                        Option::Some(be) => {
                            if be < e {
                                let bspan = if be < m.exprs.len() {
                                    m.exprs[be].span
                                } else {
                                    span
                                };
                                let t = self.expression_type(m, be);
                                let want = Ty::int_ty();
                                self.validate_type(&t, &want, bspan);
                            }
                        },
                        Option::None => {},
                    }
                }
                let t0 = if xe < e {
                    self.expression_type(m, xe)
                } else {
                    Ty::any()
                };
                let ghost t0v = ty_v(t0);
                let out = self.expression_attribute(&t0, TypingAttr::Slice, span);
                proof {
                    assert(out@ == (match crate::oracle::attribute_ty_v(
                        &old(self).oracle.oracle,
                        t0v,
                        crate::ops::TypingAttrV::Slice,
                    ) {
                        Option::Some(t) => t,
                        Option::None => crate::ty::never_v(),
                    }));
                }
                out
            },
            ExprKind::Identifier(r) => {
                match r {
                    IdentRef::Slot(b) => {
                        if *b < self.types.len() {
                            match &self.types[*b] {
                                Option::Some(t) => t.clone(),
                                Option::None => Ty::any(),
                            }
                        } else {
                            Ty::any()
                        }
                    },
                    IdentRef::Global(g) => {
                        let gn = g.clone();
                        self.builtin(&gn, span)
                    },
                    IdentRef::Unresolved => {
                        // Scope resolution already reported this name.
                        Ty::any()
                    },
                }
            },
            ExprKind::Lambda => {
                self.approximation("Unmodelled", "lambda body");
                Ty::any_function()
            },
            ExprKind::Literal(l) => {
                match l {
                    Lit::Int(_) => Ty::int_ty(),
                    Lit::Float(_) => Ty::float(),
                    Lit::Str(_) => Ty::string(),
                }
            },
            ExprKind::Not(a) => {
                let c = *a;
                let t = if c < e {
                    self.expression_type(m, c)
                } else {
                    Ty::any()
                };
                if t.is_never() {
                    Ty::never()
                } else {
                    Ty::bool()
                }
            },
            ExprKind::Minus(a) => {
                let c = *a;
                let t = if c < e {
                    self.expression_type(m, c)
                } else {
                    Ty::any()
                };
                let ghost tv = ty_v(t);
                let out = self.expression_un_op(span, t, TypingUnOp::Minus);
                proof {
                    assert(out@ == un_op_result_v(tv, TypingUnOp::Minus));
                }
                out
            },
            ExprKind::Plus(a) => {
                let c = *a;
                let t = if c < e {
                    self.expression_type(m, c)
                } else {
                    Ty::any()
                };
                let ghost tv = ty_v(t);
                let out = self.expression_un_op(span, t, TypingUnOp::Plus);
                proof {
                    assert(out@ == un_op_result_v(tv, TypingUnOp::Plus));
                }
                out
            },
            ExprKind::BitNot(a) => {
                let c = *a;
                let t = if c < e {
                    self.expression_type(m, c)
                } else {
                    Ty::any()
                };
                let ghost tv = ty_v(t);
                let out = self.expression_un_op(span, t, TypingUnOp::BitNot);
                proof {
                    assert(out@ == un_op_result_v(tv, TypingUnOp::BitNot));
                }
                out
            },
            ExprKind::Op(a, op, b) => {
                let (ae, be) = (*a, *b);
                let opv = *op;
                let (aspan, bspan) = (
                    if ae < m.exprs.len() {
                        m.exprs[ae].span
                    } else {
                        span
                    },
                    if be < m.exprs.len() {
                        m.exprs[be].span
                    } else {
                        span
                    },
                );
                let lt = if ae < e {
                    self.expression_type(m, ae)
                } else {
                    Ty::any()
                };
                let rt = if be < e {
                    self.expression_type(m, be)
                } else {
                    Ty::any()
                };
                let ghost (glv, grv) = (ty_v(lt), ty_v(rt));
                let out = self.expr_bin_op(
                    span,
                    Spanned { span: aspan, node: lt },
                    opv,
                    Spanned { span: bspan, node: rt },
                );
                proof {
                    assert(out@ == bin_expr_result_v(
                        &old(self).oracle.oracle,
                        glv,
                        opv,
                        grv,
                        bspan,
                        span,
                    ));
                }
                out
            },
            ExprKind::IfExpr(c, t, f) => {
                let (ce, te, fe) = (*c, *t, *f);
                let ct = if ce < e {
                    self.expression_type(m, ce)
                } else {
                    Ty::any()
                };
                let tt = if te < e {
                    self.expression_type(m, te)
                } else {
                    Ty::any()
                };
                let ft = if fe < e {
                    self.expression_type(m, fe)
                } else {
                    Ty::any()
                };
                if ct.is_never() {
                    Ty::never()
                } else {
                    let ghost (gtv, gfv) = (ty_v(tt), ty_v(ft));
                    let out = Ty::union2(&tt, &ft);
                    proof {
                        assert(out@ == crate::ty::union2_v(gtv, gfv));
                    }
                    out
                }
            },
            ExprKind::List(xs) => {
                let mut ts: Vec<Ty> = Vec::new();
                let n = xs.len();
                for i in 0..n
                    invariant
                        n == xs@.len(),
                        e < m.exprs@.len(),
                        m.exprs@[e as int].kind == ExprKind::List(*xs),
                        ts@.len() == i,
                        crate::syntax::module_wf(m),
                        ctx_wf(&*self),
                        ctx_tables_same(&*old(self), &*self),
                errs_appended(old(self).errors@, self.errors@),
                approx_appended(old(self).approximations@, self.approximations@),
                        errs_appended(old(self).errors@, self.errors@),
                        approx_appended(old(self).approximations@, self.approximations@),
                        forall|j: int| 0 <= j < ts@.len() ==> wf_ty(ty_v(#[trigger] ts@[j])),
                        forall|j: int|
                            0 <= j < ts@.len() && (xs@[j] as int) < e
                                && m.exprs@[xs@[j] as int].kind is Literal ==> ty_v(
                                #[trigger] ts@[j],
                            ) == lit_ty_v(m.exprs@[xs@[j] as int].kind->Literal_0),
                {
                    let c = xs[i];
                    let t = if c < e {
                        self.expression_type(m, c)
                    } else {
                        Ty::any()
                    };
                    ts.push(t);
                }
                let ghost tsv = crate::ty::tyseq_v(ts@);
                let elem = Ty::unions(&ts);
                let ghost ev = ty_v(elem);
                let out = Ty::list(elem);
                proof {
                    assert(ev == crate::ty::unions_v(tsv, 0, crate::ty::never_v()));
                    assert(out@ == crate::ty::list_v(crate::ty::unions_v(
                        tsv,
                        0,
                        crate::ty::never_v(),
                    )));
                    assert(tsv.len() == xs@.len());
                    assert forall|j: int|
                        0 <= j < tsv.len() && (xs@[j] as int) < e && m.exprs@[xs@[j] as int].kind
                            is Literal implies #[trigger] tsv[j] == lit_ty_v(
                        m.exprs@[xs@[j] as int].kind->Literal_0,
                    ) by {
                        assert(tsv[j] == ty_v(ts@[j]));
                    }
                }
                out
            },
            ExprKind::Dict(kvs) => {
                let mut ks: Vec<Ty> = Vec::new();
                let mut vs: Vec<Ty> = Vec::new();
                let n = kvs.len();
                for i in 0..n
                    invariant
                        n == kvs@.len(),
                        e < m.exprs@.len(),
                        m.exprs@[e as int].kind == ExprKind::Dict(*kvs),
                        ks@.len() == i,
                        vs@.len() == i,
                        crate::syntax::module_wf(m),
                        ctx_wf(&*self),
                        ctx_tables_same(&*old(self), &*self),
                errs_appended(old(self).errors@, self.errors@),
                approx_appended(old(self).approximations@, self.approximations@),
                        errs_appended(old(self).errors@, self.errors@),
                        approx_appended(old(self).approximations@, self.approximations@),
                        forall|j: int| 0 <= j < ks@.len() ==> wf_ty(ty_v(#[trigger] ks@[j])),
                        forall|j: int| 0 <= j < vs@.len() ==> wf_ty(ty_v(#[trigger] vs@[j])),
                        forall|j: int|
                            0 <= j < ks@.len() && (kvs@[j].0 as int) < e
                                && m.exprs@[kvs@[j].0 as int].kind is Literal ==> ty_v(
                                #[trigger] ks@[j],
                            ) == lit_ty_v(m.exprs@[kvs@[j].0 as int].kind->Literal_0),
                        forall|j: int|
                            0 <= j < vs@.len() && (kvs@[j].1 as int) < e
                                && m.exprs@[kvs@[j].1 as int].kind is Literal ==> ty_v(
                                #[trigger] vs@[j],
                            ) == lit_ty_v(m.exprs@[kvs@[j].1 as int].kind->Literal_0),
                {
                    let (ke, ve) = kvs[i];
                    let kt = if ke < e {
                        self.expression_type(m, ke)
                    } else {
                        Ty::any()
                    };
                    let vt = if ve < e {
                        self.expression_type(m, ve)
                    } else {
                        Ty::any()
                    };
                    ks.push(kt);
                    vs.push(vt);
                }
                let ghost (ksv, vsv) = (crate::ty::tyseq_v(ks@), crate::ty::tyseq_v(vs@));
                let ku = Ty::unions(&ks);
                let vu = Ty::unions(&vs);
                let ghost (kv2, vv2) = (ty_v(ku), ty_v(vu));
                let out = Ty::dict(ku, vu);
                proof {
                    assert(kv2 == crate::ty::unions_v(ksv, 0, crate::ty::never_v()));
                    assert(vv2 == crate::ty::unions_v(vsv, 0, crate::ty::never_v()));
                    assert(out@ == crate::ty::dict_v(
                        crate::ty::unions_v(ksv, 0, crate::ty::never_v()),
                        crate::ty::unions_v(vsv, 0, crate::ty::never_v()),
                    ));
                    assert(ksv.len() == kvs@.len() && vsv.len() == kvs@.len());
                    assert forall|j: int|
                        0 <= j < ksv.len() && (kvs@[j].0 as int) < e
                            && m.exprs@[kvs@[j].0 as int].kind is Literal implies #[trigger] ksv[j]
                        == lit_ty_v(m.exprs@[kvs@[j].0 as int].kind->Literal_0) by {
                        assert(ksv[j] == ty_v(ks@[j]));
                    }
                    assert forall|j: int|
                        0 <= j < vsv.len() && (kvs@[j].1 as int) < e
                            && m.exprs@[kvs@[j].1 as int].kind is Literal implies #[trigger] vsv[j]
                        == lit_ty_v(m.exprs@[kvs@[j].1 as int].kind->Literal_0) by {
                        assert(vsv[j] == ty_v(vs@[j]));
                    }
                }
                out
            },
            ExprKind::ListComprehension(head, for1, clauses) => {
                let he = *head;
                self.check_comprehension(m, for1, clauses, e);
                let ht = if he < e {
                    self.expression_type(m, he)
                } else {
                    Ty::any()
                };
                let ghost hv = ty_v(ht);
                let out = Ty::list(ht);
                proof {
                    assert(out@ == crate::ty::list_v(hv));
                }
                out
            },
            ExprKind::DictComprehension(kx, vx, for1, clauses) => {
                let (ke, ve) = (*kx, *vx);
                self.check_comprehension(m, for1, clauses, e);
                let kt = if ke < e {
                    self.expression_type(m, ke)
                } else {
                    Ty::any()
                };
                let vt = if ve < e {
                    self.expression_type(m, ve)
                } else {
                    Ty::any()
                };
                let ghost (kv3, vv3) = (ty_v(kt), ty_v(vt));
                let out = Ty::dict(kt, vt);
                proof {
                    assert(out@ == crate::ty::dict_v(kv3, vv3));
                }
                out
            },
            ExprKind::FString => Ty::string(),
        }
    }

    /// Walk the clauses of a comprehension: the clause sources do not change
    /// the comprehension's own type, but their errors must surface.
    pub fn check_comprehension(
        &mut self,
        m: &AstModule,
        for1: &ForClause,
        clauses: &Vec<CompClause>,
        parent: usize,
    )
        requires
            ctx_wf(&*old(self)),
            crate::syntax::module_wf(m),
        ensures
            ctx_wf(&*final(self)),
            ctx_tables_same(&*old(self), &*final(self)),
            errs_appended(old(self).errors@, final(self).errors@),
            approx_appended(old(self).approximations@, final(self).approximations@),
        decreases parent, 0int,
    {
        let over = for1.over;
        if over < parent {
            self.expression_type(m, over);
        }
        let n = clauses.len();
        for i in 0..n
            invariant
                n == clauses@.len(),
                crate::syntax::module_wf(m),
                ctx_wf(&*self),
                ctx_tables_same(&*old(self), &*self),
                errs_appended(old(self).errors@, self.errors@),
                approx_appended(old(self).approximations@, self.approximations@),
        {
            let ce = match &clauses[i] {
                CompClause::For(f) => f.over,
                CompClause::If(x) => *x,
            };
            if ce < parent {
                self.expression_type(m, ce);
            }
        }
    }

    /// Case-analysis forgiveness for binary operators: one succeeding pair
    /// of alternatives keeps the whole operation from erring.
    pub proof fn lemma_bin_op_forgiveness(
        o: &crate::oracle::TypingOracle,
        la: Seq<crate::ty::TyBasicV>,
        op: TypingBinOp,
        ra: Seq<crate::ty::TyBasicV>,
        rspan: Span,
        span: Span,
        i: int,
        j: int,
    )
        requires
            0 <= i < la.len(),
            0 <= j < ra.len(),
            bin_basic_outcome_v(o, la[i], op, rspan, ra[j], span) is Some,
        ensures
            bin_pairs_v(o, la, op, ra, rspan, span, 0, 0, Seq::empty()).len() > 0,
    {
        lemma_bin_pairs_hit(o, la, op, ra, rspan, span, 0, 0, Seq::empty(), i, j);
    }

    /// The result of a binary expression: `and`/`or` union their operands
    /// (`Never` on the left short-circuits), equality and inequality are a
    /// soft check that never errs, containment dispatches on the right
    /// operand, orderings and arithmetic go through the per-pair analysis.
    pub fn expr_bin_op(
        &mut self,
        span: Span,
        lhs: Spanned<Ty>,
        op: BinOp,
        rhs: Spanned<Ty>,
    ) -> (r: Ty)
        requires
            ctx_wf(&*old(self)),
            wf_ty(ty_v(lhs.node)),
            wf_ty(ty_v(rhs.node)),
        ensures
            ctx_wf(&*final(self)),
            ctx_tables_same(&*old(self), &*final(self)),
            final(self).approximations == old(self).approximations,
            ({
                let o = &old(self).oracle.oracle;
                let lv = ty_v(lhs.node);
                let rv = ty_v(rhs.node);
                let bool_ret = if lv.is_never() || rv.is_never() {
                    crate::ty::never_v()
                } else {
                    crate::ty::bool_v()
                };
                match op {
                    BinOp::And | BinOp::Or => final(self).errors == old(self).errors && (if lv.is_never() {
                        r@ == crate::ty::never_v()
                    } else {
                        r@ == crate::ty::union2_v(lv, rv)
                    }),
                    BinOp::Equal | BinOp::NotEqual => final(self).errors == old(self).errors && r@
                        == bool_ret,
                    BinOp::In | BinOp::NotIn => ({
                        let (es, _) = bin_ty_outcome_v(o, rv, TypingBinOp::In, lv, lhs.span, span);
                        errs_grew(old(self).errors@, final(self).errors@, es) && r@ == bool_ret
                    }),
                    BinOp::Less | BinOp::LessOrEqual | BinOp::Greater | BinOp::GreaterOrEqual => ({
                        let (es, _) = bin_ty_outcome_v(
                            o,
                            lv,
                            TypingBinOp::Less,
                            rv,
                            rhs.span,
                            span,
                        );
                        errs_grew(old(self).errors@, final(self).errors@, es) && r@ == bool_ret
                    }),
                    BinOp::Subtract => bin_arith_ensures(o, lv, TypingBinOp::Sub, rv, rhs.span, span, old(self).errors@, final(self).errors@, r@),
                    BinOp::Add => bin_arith_ensures(o, lv, TypingBinOp::Add, rv, rhs.span, span, old(self).errors@, final(self).errors@, r@),
                    BinOp::Multiply => bin_arith_ensures(o, lv, TypingBinOp::Mul, rv, rhs.span, span, old(self).errors@, final(self).errors@, r@),
                    BinOp::Percent => bin_arith_ensures(o, lv, TypingBinOp::Percent, rv, rhs.span, span, old(self).errors@, final(self).errors@, r@),
                    BinOp::Divide => bin_arith_ensures(o, lv, TypingBinOp::Div, rv, rhs.span, span, old(self).errors@, final(self).errors@, r@),
                    BinOp::FloorDivide => bin_arith_ensures(o, lv, TypingBinOp::FloorDiv, rv, rhs.span, span, old(self).errors@, final(self).errors@, r@),
                    BinOp::BitAnd => bin_arith_ensures(o, lv, TypingBinOp::BitAnd, rv, rhs.span, span, old(self).errors@, final(self).errors@, r@),
                    BinOp::BitOr => bin_arith_ensures(o, lv, TypingBinOp::BitOr, rv, rhs.span, span, old(self).errors@, final(self).errors@, r@),
                    BinOp::BitXor => bin_arith_ensures(o, lv, TypingBinOp::BitXor, rv, rhs.span, span, old(self).errors@, final(self).errors@, r@),
                    BinOp::LeftShift => bin_arith_ensures(o, lv, TypingBinOp::LeftShift, rv, rhs.span, span, old(self).errors@, final(self).errors@, r@),
                    BinOp::RightShift => bin_arith_ensures(o, lv, TypingBinOp::RightShift, rv, rhs.span, span, old(self).errors@, final(self).errors@, r@),
                }
            }),
            wf_ty(r@),
    {
        let lhs_never = lhs.node.is_never();
        let rhs_never = rhs.node.is_never();
        match op {
            BinOp::And | BinOp::Or => {
                if lhs_never {
                    Ty::never()
                } else {
                    Ty::union2(&lhs.node, &rhs.node)
                }
            },
            BinOp::Equal | BinOp::NotEqual => {
                // Comparing different types is pointless rather than wrong:
                // a soft check only, never a diagnostic.
                if lhs_never || rhs_never {
                    Ty::never()
                } else {
                    Ty::bool()
                }
            },
            BinOp::In | BinOp::NotIn => {
                // `x in y` is dispatched as an operator of `y`.
                self.expr_bin_op_ty(span, rhs, TypingBinOp::In, lhs);
                if lhs_never || rhs_never {
                    Ty::never()
                } else {
                    Ty::bool()
                }
            },
            BinOp::Less | BinOp::LessOrEqual | BinOp::Greater | BinOp::GreaterOrEqual => {
                self.expr_bin_op_ty(span, lhs, TypingBinOp::Less, rhs);
                if lhs_never || rhs_never {
                    Ty::never()
                } else {
                    Ty::bool()
                }
            },
            BinOp::Subtract => self.expr_bin_op_ty(span, lhs, TypingBinOp::Sub, rhs),
            BinOp::Add => self.expr_bin_op_ty(span, lhs, TypingBinOp::Add, rhs),
            BinOp::Multiply => self.expr_bin_op_ty(span, lhs, TypingBinOp::Mul, rhs),
            BinOp::Percent => self.expr_bin_op_ty(span, lhs, TypingBinOp::Percent, rhs),
            BinOp::Divide => self.expr_bin_op_ty(span, lhs, TypingBinOp::Div, rhs),
            BinOp::FloorDivide => self.expr_bin_op_ty(span, lhs, TypingBinOp::FloorDiv, rhs),
            BinOp::BitAnd => self.expr_bin_op_ty(span, lhs, TypingBinOp::BitAnd, rhs),
            BinOp::BitOr => self.expr_bin_op_ty(span, lhs, TypingBinOp::BitOr, rhs),
            BinOp::BitXor => self.expr_bin_op_ty(span, lhs, TypingBinOp::BitXor, rhs),
            BinOp::LeftShift => self.expr_bin_op_ty(span, lhs, TypingBinOp::LeftShift, rhs),
            BinOp::RightShift => self.expr_bin_op_ty(span, lhs, TypingBinOp::RightShift, rhs),
        }
    }
}

impl TypingContext {
    /// The position a contribution is reported at: the underlying
    /// expression or target.
    pub fn bind_expr_span(&self, m: &AstModule, bindings: &Bindings, b: usize) -> (r: Span)
        decreases b,
    {
        if b >= bindings.bind_exprs.len() {
            return Span::zero();
        }
        match &bindings.bind_exprs[b] {
            BindExpr::Expr(e) => {
                if *e < m.exprs.len() {
                    m.exprs[*e].span
                } else {
                    Span::zero()
                }
            },
            BindExpr::GetIndex(_, x) => {
                if *x < b {
                    self.bind_expr_span(m, bindings, *x)
                } else {
                    Span::zero()
                }
            },
            BindExpr::Iter(x) => {
                if *x < b {
                    self.bind_expr_span(m, bindings, *x)
                } else {
                    Span::zero()
                }
            },
            BindExpr::AssignModify(t, _, _) => {
                if *t < m.targets.len() {
                    m.targets[*t].span
                } else {
                    Span::zero()
                }
            },
            BindExpr::SetIndex(_, e, _) => {
                if *e < m.exprs.len() {
                    m.exprs[*e].span
                } else {
                    Span::zero()
                }
            },
            BindExpr::ListAppend(_, e) => {
                if *e < m.exprs.len() {
                    m.exprs[*e].span
                } else {
                    Span::zero()
                }
            },
            BindExpr::ListExtend(_, e) => {
                if *e < m.exprs.len() {
                    m.exprs[*e].span
                } else {
                    Span::zero()
                }
            },
        }
    }

    /// The current type of a binding slot; an unset slot counts as `Never`
    /// (nothing has flowed in yet).
    pub fn binding_ty(&self, b: usize) -> (r: Ty)
        requires
            ctx_wf(self),
        ensures
            wf_ty(r@),
            r@ == binding_ty_v(self.types@, b),
    {
        if b < self.types.len() {
            match &self.types[b] {
                Option::Some(t) => t.clone(),
                Option::None => Ty::never(),
            }
        } else {
            Ty::never()
        }
    }

    /// The type of the expression a target stands for when it is read as
    /// part of an augmented assignment: an identifier reads its binding, an
    /// index target reads the indexed element; destructuring and attribute
    /// targets are unmodelled.
    pub fn expression_assign(&mut self, m: &AstModule, t: usize) -> (r: Ty)
        requires
            ctx_wf(&*old(self)),
            crate::syntax::module_wf(m),
        ensures
            ctx_wf(&*final(self)),
            ctx_tables_same(&*old(self), &*final(self)),
            t < m.targets@.len() ==> match m.targets@[t as int].kind {
                TargetKind::Identifier(IdentRef::Slot(bb)) => r@ == binding_ty_v(
                    old(self).types@,
                    bb,
                ) && final(self).errors == old(self).errors && final(self).approximations == old(
                    self,
                ).approximations,
                TargetKind::Tuple(_) => r@ == crate::ty::any_v() && final(self).errors == old(
                    self,
                ).errors,
                TargetKind::Dot(_, _) => r@ == crate::ty::any_v() && final(self).errors == old(
                    self,
                ).errors,
                TargetKind::Index(_, _) => (exists|
                    a0: crate::ty::TyV,
                    a1span: Span,
                    a1: crate::ty::TyV,
                |
                    r@ == prim_outcome_v(
                        &old(self).oracle.oracle,
                        a0,
                        crate::ops::TypingAttrV::Index,
                        a1span,
                        a1,
                        m.targets@[t as int].span,
                    ).1),
                _ => true,
            },
            wf_ty(r@),
    {
        if t >= m.targets.len() {
            return Ty::any();
        }
        let span = m.targets[t].span;
        match &m.targets[t].kind {
            TargetKind::Tuple(_) => self.approximation("Unmodelled", "augmented tuple assignment"),
            TargetKind::Index(a, b) => {
                let (ae, be) = (*a, *b);
                let t0 = if ae < m.exprs.len() {
                    self.expression_type(m, ae)
                } else {
                    Ty::any()
                };
                let bspan = if be < m.exprs.len() {
                    m.exprs[be].span
                } else {
                    span
                };
                let t1 = if be < m.exprs.len() {
                    self.expression_type(m, be)
                } else {
                    Ty::any()
                };
                let ghost (g0, gs, g1) = (ty_v(t0), bspan, ty_v(t1));
                let out = self.expression_primitive_ty(
                    TypingAttr::Index,
                    t0,
                    Spanned { span: bspan, node: t1 },
                    span,
                );
                proof {
                    assert(out@ == prim_outcome_v(
                        &old(self).oracle.oracle,
                        g0,
                        crate::ops::TypingAttrV::Index,
                        gs,
                        g1,
                        m.targets@[t as int].span,
                    ).1);
                }
                out
            },
            TargetKind::Dot(_, _) => self.approximation("Unmodelled", "augmented attribute assignment"),
            TargetKind::Identifier(r) => {
                match r {
                    IdentRef::Slot(b) => self.binding_ty(*b),
                    _ => Ty::any(),
                }
            },
        }
    }

    /// The type one contribution gives its binding: a direct expression its
    /// own type; a projection the projected element; iteration the element
    /// type; an augmented assignment the operator's result; an index write
    /// folds the written element into the list or dictionary shape; a
    /// recognised list mutation contributes the grown list where the
    /// binding plausibly is one, and nothing otherwise.
    pub fn expression_bind_type(&mut self, m: &AstModule, bindings: &Bindings, b: usize) -> (r: Ty)
        requires
            ctx_wf(&*old(self)),
            crate::syntax::module_wf(m),
        ensures
            ctx_wf(&*final(self)),
            ctx_tables_same(&*old(self), &*final(self)),
            b < bindings.bind_exprs@.len() ==> match bindings.bind_exprs@[b as int] {
                BindExpr::Expr(ce) => (ce as int) < m.exprs@.len() ==> (match m.exprs@[ce as int].kind {
                    crate::syntax::ExprKind::Literal(l) => r@ == lit_ty_v(l),
                    crate::syntax::ExprKind::List(xs) => (exists|ts: Seq<crate::ty::TyV>|
                        #![trigger crate::ty::unions_v(ts, 0, crate::ty::never_v())]
                        ts.len() == xs@.len() && r@ == crate::ty::list_v(
                            crate::ty::unions_v(ts, 0, crate::ty::never_v()),
                        ) && (forall|j: int|
                            0 <= j < ts.len() && (xs@[j] as int) < ce
                                && m.exprs@[xs@[j] as int].kind is Literal ==> #[trigger] ts[j]
                                == lit_ty_v(m.exprs@[xs@[j] as int].kind->Literal_0))),
                    _ => true,
                }),
                BindExpr::GetIndex(ix, _) => (exists|inner: crate::ty::TyV|
                    r@ == crate::ty::indexed_v(inner, ix as int)),
                BindExpr::SetIndex(id, ie, _) => (exists|iv: crate::ty::TyV, ev: crate::ty::TyV|
                    #![trigger set_index_fold_v(binding_ty_v(old(self).types@, id), iv, ev)]
                    r@ == set_index_fold_v(binding_ty_v(old(self).types@, id), iv, ev) && ((
                    ie as int) < m.exprs@.len() && m.exprs@[ie as int].kind is Literal ==> iv
                        == lit_ty_v(m.exprs@[ie as int].kind->Literal_0)) && (binding_ty_v(
                        old(self).types@,
                        id,
                    ).is_list() && !crate::oracle::intersects_v(
                        &old(self).oracle.oracle,
                        iv,
                        crate::ty::int_v(),
                    ) ==> final(self).errors@.len() > 0 && final(self).errors@.last()@.kind == (
                    crate::error::TypingErrorKindV::IncompatibleType {
                        got: iv,
                        require: crate::ty::int_v(),
                    }) && ((ie as int) < m.exprs@.len() ==> final(self).errors@.last()@.span
                        == m.exprs@[ie as int].span))),
                BindExpr::AssignModify(t, aop, _) => t < m.targets@.len() ==> (exists|
                    lv: crate::ty::TyV,
                    rspan: Span,
                    rv: crate::ty::TyV,
                |
                    r@ == prim_outcome_v(
                        &old(self).oracle.oracle,
                        lv,
                        crate::ops::TypingAttrV::BinOp(bin_op_of_assign_v(aop)),
                        rspan,
                        rv,
                        m.targets@[t as int].span,
                    ).1),
                BindExpr::ListAppend(id, ce) => if plausibly_list_v(
                    &old(self).oracle.oracle,
                    binding_ty_v(old(self).types@, id),
                ) {
                    (exists|tv: crate::ty::TyV| r@ == crate::ty::list_v(tv)) && ((ce as int)
                        < m.exprs@.len() && m.exprs@[ce as int].kind is Literal ==> r@
                        == crate::ty::list_v(lit_ty_v(m.exprs@[ce as int].kind->Literal_0)))
                } else {
                    // Evidently not a list method call on this binding: the
                    // call is non-mutating and contributes nothing.
                    r@ == crate::ty::never_v() && final(self).errors == old(self).errors
                        && final(self).approximations == old(self).approximations
                },
                BindExpr::ListExtend(id, _) => if plausibly_list_v(
                    &old(self).oracle.oracle,
                    binding_ty_v(old(self).types@, id),
                ) {
                    exists|tv: crate::ty::TyV| r@ == crate::ty::list_v(tv)
                } else {
                    r@ == crate::ty::never_v() && final(self).errors == old(self).errors
                        && final(self).approximations == old(self).approximations
                },
                _ => true,
            },
            wf_ty(r@),
        decreases b, 1int,
    {
        if b >= bindings.bind_exprs.len() {
            return Ty::any();
        }
        match &bindings.bind_exprs[b] {
            BindExpr::Expr(e) => {
                let c = *e;
                self.expression_type(m, c)
            },
            BindExpr::GetIndex(i, x) => {
                let (ix, c) = (*i, *x);
                let inner = if c < b {
                    self.expression_bind_type(m, bindings, c)
                } else {
                    Ty::any()
                };
                let out = inner.indexed(ix);
                proof {
                    assert(out@ == crate::ty::indexed_v(inner@, ix as int));
                }
                out
            },
            BindExpr::Iter(x) => {
                let c = *x;
                let span = self.bind_expr_span(m, bindings, c);
                let inner = if c < b {
                    self.expression_bind_type(m, bindings, c)
                } else {
                    Ty::any()
                };
                self.from_iterated(&inner, span)
            },
            BindExpr::AssignModify(t, op, rhs) => {
                let (te, opv, re) = (*t, *op, *rhs);
                let span = if te < m.targets.len() {
                    m.targets[te].span
                } else {
                    Span::zero()
                };
                let rspan = if re < m.exprs.len() {
                    m.exprs[re].span
                } else {
                    span
                };
                let rhs_ty = self.expression_type(m, re);
                let lhs_ty = self.expression_assign(m, te);
                let attr = TypingAttr::BinOp(bin_op_of_assign(opv));
                let ghost (glv, grs, grv) = (ty_v(lhs_ty), rspan, ty_v(rhs_ty));
                let out = self.expression_primitive_ty(
                    attr,
                    lhs_ty,
                    Spanned { span: rspan, node: rhs_ty },
                    span,
                );
                proof {
                    if te < m.targets@.len() {
                        assert(out@ == prim_outcome_v(
                            &old(self).oracle.oracle,
                            glv,
                            crate::ops::TypingAttrV::BinOp(bin_op_of_assign_v(opv)),
                            grs,
                            grv,
                            m.targets@[te as int].span,
                        ).1);
                    }
                }
                out
            },
            BindExpr::SetIndex(id, index_e, x) => {
                let (bid, ie, c) = (*id, *index_e, *x);
                let span = if ie < m.exprs.len() {
                    m.exprs[ie].span
                } else {
                    Span::zero()
                };
                let index = self.expression_type(m, ie);
                let elem = if c < b {
                    self.expression_bind_type(m, bindings, c)
                } else {
                    Ty::any()
                };
                let cur = self.binding_ty(bid);
                if cur.is_list() {
                    // A value statically known to be a list takes integer
                    // indices only.
                    let want = Ty::int_ty();
                    self.validate_type(&index, &want, span);
                }
                proof {
                    crate::ty::lemma_ty_mirror(cur);
                    crate::ty::lemma_wf_alts(ty_v(cur).alts, 0);
                }
                let ghost cv = ty_v(cur);
                let ghost iv = ty_v(index);
                let ghost ev = ty_v(elem);
                let mut res: Vec<Ty> = Vec::new();
                let n = cur.alternatives.len();
                proof {
                    assert(crate::ty::tyseq_v(res@) =~= Seq::<crate::ty::TyV>::empty());
                }
                for i in 0..n
                    invariant
                        n == cur.alternatives@.len(),
                        cv == ty_v(cur),
                        iv == ty_v(index),
                        ev == ty_v(elem),
                        cv.alts.len() == n,
                        wf_ty(cv),
                        wf_ty(iv),
                        wf_ty(ev),
                        forall|j: int|
                            0 <= j < n ==> cv.alts[j] == crate::ty::basic_v(
                                #[trigger] cur.alternatives@[j],
                            ),
                        forall|j: int| 0 <= j < n ==> wf_basic(#[trigger] cv.alts[j]),
                        forall|j: int| 0 <= j < res@.len() ==> wf_ty(ty_v(#[trigger] res@[j])),
                        set_fold_parts_v(cv.alts, iv, ev, i as int, crate::ty::tyseq_v(res@))
                            == set_fold_parts_v(cv.alts, iv, ev, 0, Seq::empty()),
                {
                    let ghost before = crate::ty::tyseq_v(res@);
                    match &cur.alternatives[i] {
                        TyBasic::List(_) => {
                            res.push(Ty::list(elem.clone()));
                            proof {
                                assert(crate::ty::tyseq_v(res@) =~= before.push(
                                    ty_v(res@[res@.len() - 1]),
                                ));
                            }
                        },
                        TyBasic::Dict(_, _) => {
                            res.push(Ty::dict(index.clone(), elem.clone()));
                            proof {
                                assert(crate::ty::tyseq_v(res@) =~= before.push(
                                    ty_v(res@[res@.len() - 1]),
                                ));
                            }
                        },
                        _ => {
                            // Not something an index write refines; `Any`
                            // stays `Any` and errors are not invented.
                        },
                    }
                }
                proof {
                    assert forall|j: int|
                        0 <= j < crate::ty::tyseq_v(res@).len() implies wf_ty(
                        #[trigger] crate::ty::tyseq_v(res@)[j],
                    ) by {
                        assert(crate::ty::tyseq_v(res@)[j] == ty_v(res@[j]));
                    }
                }
                let out = Ty::unions(&res);
                proof {
                    assert(out@ == set_index_fold_v(
                        binding_ty_v(old(self).types@, bid),
                        iv,
                        ev,
                    ));
                }
                out
            },
            BindExpr::ListAppend(id, e) => {
                let (bid, ce) = (*id, *e);
                let cur = self.binding_ty(bid);
                if self.oracle.probably_a_list(&cur) {
                    let t = self.expression_type(m, ce);
                    let ghost tv = ty_v(t);
                    let out = Ty::list(t);
                    proof {
                        assert(out@ == crate::ty::list_v(tv));
                    }
                    out
                } else {
                    // Evidently not a list method call on this binding:
                    // treat the call as non-mutating.
                    Ty::never()
                }
            },
            BindExpr::ListExtend(id, e) => {
                let (bid, ce) = (*id, *e);
                let cur = self.binding_ty(bid);
                if self.oracle.probably_a_list(&cur) {
                    let span = if ce < m.exprs.len() {
                        m.exprs[ce].span
                    } else {
                        Span::zero()
                    };
                    let t = self.expression_type(m, ce);
                    let elem = self.from_iterated(&t, span);
                    let ghost ev2 = ty_v(elem);
                    let out = Ty::list(elem);
                    proof {
                        assert(out@ == crate::ty::list_v(ev2));
                    }
                    out
                } else {
                    Ty::never()
                }
            },
        }
    }
}

/// The union laws, seen at the operator layer: by
/// [`TypingContext::expr_bin_op`]'s contract, `and`/`or` of `t` with a
/// `Never` (resp. `Any`) right operand yields exactly `union2_v(t, rhs)`,
/// so `Never` is absorbed (the result is `t` itself) and `Any` absorbs the
/// union.
pub proof fn lemma_and_or_absorption(t: crate::ty::TyV)
    requires
        crate::ty::wf_ty(t),
    ensures
        crate::ty::union2_v(t, crate::ty::never_v()) == t,
        !t.is_never() ==> !crate::ty::union2_v(t, crate::ty::never_v()).is_never(),
        crate::ty::union2_v(t, crate::ty::any_v()).is_any(),
{
    crate::ty::lemma_union_never_any(t);
}

/// The operator an augmented assignment applies, at the ghost level.
pub open spec fn bin_op_of_assign_v(op: AssignOp) -> TypingBinOp {
    match op {
        AssignOp::Add => TypingBinOp::Add,
        AssignOp::Subtract => TypingBinOp::Sub,
        AssignOp::Multiply => TypingBinOp::Mul,
        AssignOp::Divide => TypingBinOp::Div,
        AssignOp::FloorDivide => TypingBinOp::FloorDiv,
        AssignOp::Percent => TypingBinOp::Percent,
        AssignOp::BitAnd => TypingBinOp::BitAnd,
        AssignOp::BitOr => TypingBinOp::BitOr,
        AssignOp::BitXor => TypingBinOp::BitXor,
        AssignOp::LeftShift => TypingBinOp::LeftShift,
        AssignOp::RightShift => TypingBinOp::RightShift,
    }
}

/// The operator an augmented assignment applies.
pub fn bin_op_of_assign(op: AssignOp) -> (r: TypingBinOp)
    ensures
        r == bin_op_of_assign_v(op),
{
    match op {
        AssignOp::Add => TypingBinOp::Add,
        AssignOp::Subtract => TypingBinOp::Sub,
        AssignOp::Multiply => TypingBinOp::Mul,
        AssignOp::Divide => TypingBinOp::Div,
        AssignOp::FloorDivide => TypingBinOp::FloorDiv,
        AssignOp::Percent => TypingBinOp::Percent,
        AssignOp::BitAnd => TypingBinOp::BitAnd,
        AssignOp::BitOr => TypingBinOp::BitOr,
        AssignOp::BitXor => TypingBinOp::BitXor,
        AssignOp::LeftShift => TypingBinOp::LeftShift,
        AssignOp::RightShift => TypingBinOp::RightShift,
    }
}

} // verus!
