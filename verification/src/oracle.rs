//! The oracle: the capability surface the checker queries for facts about
//! concrete runtime types, and the validation routines built on it.
//!
//! The oracle is a table of facts, never code: per type name it may answer
//! what an attribute or operator pseudo-attribute resolves to, which binary
//! operators the type offers (and with what operand and result types),
//! whether a named type is callable and with what signature, and which
//! nominal subtype relations hold. A missing row means the oracle has no
//! opinion; the checker then stays permissive.

use vstd::prelude::*;

use crate::codemap::Span;
use crate::codemap::Spanned;
use crate::error::TypingError;
use crate::error::TypingErrorKind;
use crate::error::TypingErrorKindV;
use crate::error::TypingErrorV;
use crate::ops::TypingAttr;
use crate::ops::TypingAttrV;
use crate::ops::TypingBinOp;
use crate::ty::any_v;
use crate::ty::basic_v;
use crate::ty::bool_v;
use crate::ty::fun_v;
use crate::ty::int_v;
use crate::ty::never_v;
use crate::ty::union2_v;
use crate::ty::unions_v;
use crate::ty::Param;
use crate::ty::ParamModeV;
use crate::ty::ParamV;
use crate::ty::TyCustom;
use crate::ty::TyCustomV;
use crate::ty::TyFunctionV;
use crate::ty::TyStarlarkValueV;
use crate::ty::lemma_ty_mirror;
use crate::ty::lemma_wf_alts;
use crate::ty::ty_v;
use crate::ty::wf_basic;
use crate::ty::wf_ty;
use crate::ty::Ty;
use crate::ty::TyBasic;
use crate::ty::TyBasicV;
use crate::ty::TyFunction;
use crate::ty::TyV;

verus! {

// ---------------------------------------------------------------------------
// Call-site arguments.
// ---------------------------------------------------------------------------

/// One argument at a call site, tagged like parameters are.
pub enum Arg {
    /// A positional argument.
    Pos(Ty),
    /// A named argument.
    Name(String, Ty),
    /// A `*args` spread.
    Args(Ty),
    /// A `**kwargs` spread.
    Kwargs(Ty),
}

/// Ghost mirror of [`Arg`].
pub enum ArgV {
    /// A positional argument.
    Pos(TyV),
    /// A named argument.
    Name(Seq<char>, TyV),
    /// A `*args` spread.
    Args(TyV),
    /// A `**kwargs` spread.
    Kwargs(TyV),
}

/// Ghost mirror of one call-site argument.
pub open spec fn arg_v(a: Arg) -> ArgV {
    match a {
        Arg::Pos(t) => ArgV::Pos(ty_v(t)),
        Arg::Name(n, t) => ArgV::Name(n@, ty_v(t)),
        Arg::Args(t) => ArgV::Args(ty_v(t)),
        Arg::Kwargs(t) => ArgV::Kwargs(ty_v(t)),
    }
}

/// Ghost mirror of a whole argument list, spans kept.
pub open spec fn args_v(s: Seq<Spanned<Arg>>) -> Seq<(Span, ArgV)> {
    Seq::new(s.len(), |i: int| (s[i].span, arg_v(s[i].node)))
}

// ---------------------------------------------------------------------------
// The oracle's tables.
// ---------------------------------------------------------------------------

/// One attribute fact: on the type called `ty_name`, the attribute `attr`
/// resolves to `Some` type, or is definitively unsupported (`None`).
pub struct AttrFact {
    /// The runtime type name the fact is about.
    pub ty_name: String,
    /// The attribute or operator pseudo-attribute.
    pub attr: TypingAttr,
    /// Its type, or `None` for definitively unsupported.
    pub answer: Option<Ty>,
}

/// One binary-operator rule: on the type called `ty_name`, the operator
/// `op` accepts a right operand intersecting `rhs` and yields `result`.
pub struct BinOpRule {
    /// The left operand's runtime type name.
    pub ty_name: String,
    /// The operator.
    pub op: TypingBinOp,
    /// The accepted right operand type.
    pub rhs: Ty,
    /// The result type.
    pub result: Ty,
}

/// Whether the named type can be called: with `Some` signature, or
/// definitively not (`None`).
pub struct CallableFact {
    /// The type name the fact is about.
    pub ty_name: String,
    /// Its signature, or `None` for not callable.
    pub signature: Option<TyFunction>,
}

/// One nominal subtyping fact: `got` is acceptable where `require` is asked.
pub struct SubtypeFact {
    /// The required named type.
    pub require: String,
    /// The named type that satisfies it.
    pub got: String,
}

/// The oracle's knowledge, as data. Rows are consulted first to last; a type
/// name with no row at all means the oracle has no opinion about it.
pub struct TypingOracle {
    /// Attribute facts.
    pub attrs: Vec<AttrFact>,
    /// Binary-operator rules.
    pub bin_ops: Vec<BinOpRule>,
    /// Callability facts for named types.
    pub callables: Vec<CallableFact>,
    /// Nominal subtyping facts.
    pub subtypes: Vec<SubtypeFact>,
}

impl TypingOracle {
    /// An oracle with no knowledge at all.
    pub fn empty() -> (r: TypingOracle)
        ensures
            r.attrs@.len() == 0,
            r.bin_ops@.len() == 0,
            r.callables@.len() == 0,
            r.subtypes@.len() == 0,
    {
        TypingOracle {
            attrs: Vec::new(),
            bin_ops: Vec::new(),
            callables: Vec::new(),
            subtypes: Vec::new(),
        }
    }

    /// Record that `attr` on the type named `ty_name` has the given type
    /// (`None`: is definitively unsupported).
    pub fn add_attr(&mut self, ty_name: String, attr: TypingAttr, answer: Option<Ty>)
        ensures
            final(self).attrs@ == old(self).attrs@.push(AttrFact { ty_name, attr, answer }),
            final(self).bin_ops == old(self).bin_ops,
            final(self).callables == old(self).callables,
            final(self).subtypes == old(self).subtypes,
    {
        self.attrs.push(AttrFact { ty_name, attr, answer });
    }

    /// Record a binary-operator rule for the type named `ty_name`.
    pub fn add_bin_op(&mut self, ty_name: String, op: TypingBinOp, rhs: Ty, result: Ty)
        ensures
            final(self).bin_ops@ == old(self).bin_ops@.push(
                BinOpRule { ty_name, op, rhs, result },
            ),
            final(self).attrs == old(self).attrs,
            final(self).callables == old(self).callables,
            final(self).subtypes == old(self).subtypes,
    {
        self.bin_ops.push(BinOpRule { ty_name, op, rhs, result });
    }

    /// Record whether the type named `ty_name` is callable.
    pub fn add_callable(&mut self, ty_name: String, signature: Option<TyFunction>)
        ensures
            final(self).callables@ == old(self).callables@.push(
                CallableFact { ty_name, signature },
            ),
            final(self).attrs == old(self).attrs,
            final(self).bin_ops == old(self).bin_ops,
            final(self).subtypes == old(self).subtypes,
    {
        self.callables.push(CallableFact { ty_name, signature });
    }

    /// Record that `got` is a nominal subtype of `require`.
    pub fn add_subtype(&mut self, require: String, got: String)
        ensures
            final(self).subtypes@ == old(self).subtypes@.push(SubtypeFact { require, got }),
            final(self).attrs == old(self).attrs,
            final(self).bin_ops == old(self).bin_ops,
            final(self).callables == old(self).callables,
    {
        self.subtypes.push(SubtypeFact { require, got });
    }
}

// ---------------------------------------------------------------------------
// Table lookups, ghost and executable.
// ---------------------------------------------------------------------------

/// The first attribute fact for `(name, attr)` from row `i` on: `None` for
/// no opinion, `Some(None)` for definitively unsupported, `Some(Some(t))`
/// for a resolved type.
pub open spec fn attr_lookup_v(
    rows: Seq<AttrFact>,
    i: int,
    name: Seq<char>,
    attr: <TypingAttr as View>::V,
) -> Option<Option<TyV>>
    decreases rows.len() - i,
{
    if i < 0 || i >= rows.len() {
        Option::None
    } else if rows[i].ty_name@ == name && rows[i].attr@ == attr {
        match rows[i].answer {
            Option::Some(t) => Option::Some(Option::Some(ty_v(t))),
            Option::None => Option::Some(Option::None),
        }
    } else {
        attr_lookup_v(rows, i + 1, name, attr)
    }
}

/// Whether the subtype table holds the pair from row `i` on.
pub open spec fn subtype_lookup_v(
    rows: Seq<SubtypeFact>,
    i: int,
    require: Seq<char>,
    got: Seq<char>,
) -> bool
    decreases rows.len() - i,
{
    if i < 0 || i >= rows.len() {
        false
    } else if rows[i].require@ == require && rows[i].got@ == got {
        true
    } else {
        subtype_lookup_v(rows, i + 1, require, got)
    }
}

impl TypingOracle {
    /// Look up an attribute fact for the type named `name`.
    pub fn attr_fact(&self, name: &String, attr: &TypingAttr) -> (r: Option<Option<&Ty>>)
        ensures
            match r {
                Option::None => attr_lookup_v(self.attrs@, 0, name@, attr@) is None,
                Option::Some(Option::None) => attr_lookup_v(self.attrs@, 0, name@, attr@)
                    == Option::Some(Option::None::<TyV>),
                Option::Some(Option::Some(t)) => attr_lookup_v(self.attrs@, 0, name@, attr@)
                    == Option::Some(Option::Some(t@)),
            },
    {
        let n = self.attrs.len();
        for i in 0..n
            invariant
                n == self.attrs@.len(),
                attr_lookup_v(self.attrs@, i as int, name@, attr@) == attr_lookup_v(
                    self.attrs@,
                    0,
                    name@,
                    attr@,
                ),
        {
            let row = &self.attrs[i];
            if row.ty_name == *name && row.attr.same(attr) {
                match &row.answer {
                    Option::Some(t) => {
                        return Option::Some(Option::Some(t));
                    },
                    Option::None => {
                        return Option::Some(Option::None);
                    },
                }
            }
        }
        Option::None
    }

    /// Whether `got` is recorded as a nominal subtype of `require`.
    pub fn subtype(&self, require: &String, got: &String) -> (r: bool)
        ensures
            r == subtype_lookup_v(self.subtypes@, 0, require@, got@),
    {
        let n = self.subtypes.len();
        for i in 0..n
            invariant
                n == self.subtypes@.len(),
                subtype_lookup_v(self.subtypes@, i as int, require@, got@) == subtype_lookup_v(
                    self.subtypes@,
                    0,
                    require@,
                    got@,
                ),
                forall|j: int|
                    0 <= j < i ==> !(#[trigger] self.subtypes@[j].require@ == require@
                        && self.subtypes@[j].got@ == got@),
        {
            let row = &self.subtypes[i];
            if row.require == *require && row.got == *got {
                return true;
            }
        }
        false
    }
}

// ---------------------------------------------------------------------------
// Sizes, for termination of the intersection test.
// ---------------------------------------------------------------------------

/// The size of a type term.
pub open spec fn sz_ty(t: TyV) -> nat
    decreases t, 1int,
{
    1 + sz_alts(t.alts, 0)
}

/// The summed size of alternatives from index `i` on.
pub open spec fn sz_alts(s: Seq<TyBasicV>, i: int) -> nat
    decreases s, s.len() - i,
{
    if i < 0 || i >= s.len() {
        0
    } else {
        sz_basic(s[i]) + sz_alts(s, i + 1)
    }
}

/// The size of one alternative.
pub open spec fn sz_basic(b: TyBasicV) -> nat
    decreases b, 1int,
{
    match b {
        TyBasicV::List(t) => 1 + sz_ty(t),
        TyBasicV::Dict(k, v) => 1 + sz_ty(k) + sz_ty(v),
        TyBasicV::Tuple(ts) => 1 + sz_tys(ts, 0),
        TyBasicV::Iter(t) => 1 + sz_ty(t),
        _ => 1,
    }
}

/// The summed size of types from index `i` on.
pub open spec fn sz_tys(s: Seq<TyV>, i: int) -> nat
    decreases s, s.len() - i,
{
    if i < 0 || i >= s.len() {
        0
    } else {
        sz_ty(s[i]) + sz_tys(s, i + 1)
    }
}

/// An alternative weighs no more than the whole tail it sits in.
pub proof fn lemma_sz_alts(s: Seq<TyBasicV>, i: int)
    requires
        0 <= i,
    ensures
        forall|j: int| i <= j < s.len() ==> sz_basic(#[trigger] s[j]) <= sz_alts(s, i),
    decreases s.len() - i,
{
    if i < s.len() {
        lemma_sz_alts(s, i + 1);
    }
}

/// A tuple element weighs no more than the whole tail it sits in.
pub proof fn lemma_sz_tys(s: Seq<TyV>, i: int)
    requires
        0 <= i,
    ensures
        forall|j: int| i <= j < s.len() ==> sz_ty(#[trigger] s[j]) <= sz_tys(s, i),
    decreases s.len() - i,
{
    if i < s.len() {
        lemma_sz_tys(s, i + 1);
    }
}

// ---------------------------------------------------------------------------
// The intersection test: if these types meet a check, might it succeed?
// ---------------------------------------------------------------------------

/// Whether two types might denote overlapping sets of values. `Any` and
/// `Never` intersect everything (the gradual-typing forgiveness rule); a
/// union intersects if any pair of alternatives does.
pub open spec fn intersects_v(o: &TypingOracle, xs: TyV, ys: TyV) -> bool {
    intersects_at_v(o, xs, ys, true)
}

/// The intersection test at a given depth. `deep` is spent when an
/// iterability fact is taken from the oracle's table (or a tuple is folded
/// to its element union): one such step is followed through exactly, and
/// anything nested deeper stays permissive. The oracle cannot promise its
/// tables are cycle-free, so following them without bound would not
/// terminate; one step decides every fact the table states directly.
pub open spec fn intersects_at_v(o: &TypingOracle, xs: TyV, ys: TyV, deep: bool) -> bool
    decreases (if deep { 1int } else { 0int }), sz_ty(xs) + sz_ty(ys), xs.alts.len() + 1, 0int,
{
    if xs.is_any() || xs.is_never() || ys.is_any() || ys.is_never() {
        true
    } else {
        intersects_scan(o, xs, ys, 0, 0, deep)
    }
}

/// Whether some pair of alternatives from `(i, j)` on intersects.
pub open spec fn intersects_scan(
    o: &TypingOracle,
    xs: TyV,
    ys: TyV,
    i: int,
    j: int,
    deep: bool,
) -> bool
    decreases
            (if deep { 1int } else { 0int }),
            sz_ty(xs) + sz_ty(ys),
            xs.alts.len() - i,
            ys.alts.len() - j,
{
    if i < 0 || j < 0 || i >= xs.alts.len() {
        false
    } else if j >= ys.alts.len() {
        intersects_scan(o, xs, ys, i + 1, 0, deep)
    } else if sz_basic(xs.alts[i]) <= sz_alts(xs.alts, 0) && sz_basic(ys.alts[j]) <= sz_alts(
        ys.alts,
        0,
    ) {
        intersects_basic_v(o, xs.alts[i], ys.alts[j], deep) || intersects_scan(
            o,
            xs,
            ys,
            i,
            j + 1,
            deep,
        )
    } else {
        false
    }
}

/// Whether two single alternatives might denote overlapping sets of values.
///
/// An iteration source compares its element with what the other side
/// yields when iterated: containers yield their element structurally, a
/// tuple the union of its elements, and an opaque named or concrete
/// runtime type whatever iterability fact the oracle states — permissively
/// `Any` where it states none.
pub open spec fn intersects_basic_v(o: &TypingOracle, x: TyBasicV, y: TyBasicV, deep: bool) -> bool
    decreases (if deep { 1int } else { 0int }), sz_basic(x) + sz_basic(y), 0int, 0int,
{
    match (x, y) {
        (TyBasicV::Name(xn), TyBasicV::Name(yn)) => xn == yn || subtype_lookup_v(
            o.subtypes@,
            0,
            xn,
            yn,
        ) || subtype_lookup_v(o.subtypes@, 0, yn, xn),
        (TyBasicV::List(ex), TyBasicV::List(ey)) => intersects_at_v(o, ex, ey, deep),
        (TyBasicV::Dict(kx, vx), TyBasicV::Dict(ky, vy)) => intersects_at_v(o, kx, ky, deep)
            && intersects_at_v(o, vx, vy, deep),
        (TyBasicV::Tuple(txs), TyBasicV::Tuple(tys)) => txs.len() == tys.len()
            && tuple_scan_v(o, txs, tys, 0, deep),
        (TyBasicV::Tuple(_), t) if is_tuple_shape(t) => true,
        (t, TyBasicV::Tuple(_)) if is_tuple_shape(t) => true,
        (TyBasicV::Iter(ex), TyBasicV::Iter(ey)) => intersects_at_v(o, ex, ey, deep),
        (TyBasicV::Iter(ex), t) => iter_elem_vs_v(o, ex, t, deep),
        (t, TyBasicV::Iter(ex)) => iter_elem_vs_v(o, ex, t, deep),
        (TyBasicV::Custom(_), TyBasicV::Custom(_)) => true,
        (a, b) => a == b,
    }
}

/// Whether the element of an iteration source intersects what the other
/// alternative yields when iterated.
pub open spec fn iter_elem_vs_v(o: &TypingOracle, ex: TyV, t: TyBasicV, deep: bool) -> bool
    decreases (if deep { 1int } else { 0int }), sz_ty(ex) + sz_basic(t), 0int, 1int,
{
    match t {
        TyBasicV::List(e) => intersects_at_v(o, ex, e, deep),
        TyBasicV::Dict(k, _) => intersects_at_v(o, ex, k, deep),
        TyBasicV::Iter(e) => intersects_at_v(o, ex, e, deep),
        TyBasicV::Any => true,
        TyBasicV::Tuple(ts) => if deep {
            iter_tuple_scan_v(o, ex, ts, 0)
        } else {
            true
        },
        TyBasicV::StarlarkValue(sv) => if sv.name == "tuple"@ {
            true
        } else if deep {
            match attr_lookup_v(o.attrs@, 0, sv.name, TypingAttrV::Iter) {
                Option::Some(Option::Some(e)) => intersects_at_v(o, ex, e, false),
                Option::Some(Option::None) => false,
                Option::None => true,
            }
        } else {
            true
        },
        TyBasicV::Name(n) => if deep {
            match attr_lookup_v(o.attrs@, 0, n, TypingAttrV::Iter) {
                Option::Some(Option::Some(e)) => intersects_at_v(o, ex, e, false),
                Option::Some(Option::None) => false,
                Option::None => true,
            }
        } else {
            true
        },
        TyBasicV::Custom(_) => false,
    }
}

/// Whether the element of an iteration source intersects some element of a
/// tuple (the tuple's element union, seen pairwise), from `k` on.
pub open spec fn iter_tuple_scan_v(o: &TypingOracle, ex: TyV, ts: Seq<TyV>, k: int) -> bool
    decreases 0int, sz_ty(ex) + sz_tys(ts, 0) + 1, ts.len() - k, 0int,
{
    if k < 0 || k >= ts.len() {
        false
    } else if sz_ty(ts[k]) <= sz_tys(ts, 0) {
        intersects_at_v(o, ex, ts[k], false) || iter_tuple_scan_v(o, ex, ts, k + 1)
    } else {
        false
    }
}

/// Whether every pair of tuple elements from `k` on intersects.
pub open spec fn tuple_scan_v(
    o: &TypingOracle,
    txs: Seq<TyV>,
    tys: Seq<TyV>,
    k: int,
    deep: bool,
) -> bool
    decreases
            (if deep { 1int } else { 0int }),
            sz_tys(txs, 0) + sz_tys(tys, 0) + 1,
            txs.len() - k,
            0int,
{
    if k < 0 || k >= txs.len() || k >= tys.len() {
        true
    } else if sz_ty(txs[k]) <= sz_tys(txs, 0) && sz_ty(tys[k]) <= sz_tys(tys, 0) {
        intersects_at_v(o, txs[k], tys[k], deep) && tuple_scan_v(o, txs, tys, k + 1, deep)
    } else {
        true
    }
}

/// Whether a non-tuple shape still stands for the runtime tuple type.
pub open spec fn is_tuple_shape(t: TyBasicV) -> bool {
    t is StarlarkValue && t->StarlarkValue_0.name == "tuple"@
}

// ---------------------------------------------------------------------------
// The oracle context: the oracle plus the validation routines built on it.
// ---------------------------------------------------------------------------

/// Oracle reference with the checker's validation routines. Stateless: it
/// only ever reads the tables.
pub struct TypingOracleCtx {
    /// The oracle's knowledge.
    pub oracle: TypingOracle,
}

impl TypingOracleCtx {
    /// A context over the given oracle.
    pub fn new(oracle: TypingOracle) -> (r: TypingOracleCtx)
        ensures
            r.oracle == oracle,
    {
        TypingOracleCtx { oracle }
    }

    /// Whether types `xs` and `ys` might denote overlapping sets of values.
    pub fn intersects(&self, xs: &Ty, ys: &Ty) -> (r: bool)
        ensures
            r == intersects_v(&self.oracle, xs@, ys@),
    {
        self.intersects_at(xs, ys, true)
    }

    /// The intersection test at a given depth; oracle-stated iterability is
    /// followed for one step.
    fn intersects_at(&self, xs: &Ty, ys: &Ty, deep: bool) -> (r: bool)
        ensures
            r == intersects_at_v(&self.oracle, xs@, ys@, deep),
        decreases
                (if deep { 1int } else { 0int }),
                sz_ty(xs@) + sz_ty(ys@),
                xs@.alts.len() + 1,
                0int,
    {
        proof {
            lemma_ty_mirror(*xs);
            lemma_ty_mirror(*ys);
        }
        if xs.is_any() || xs.is_never() || ys.is_any() || ys.is_never() {
            return true;
        }
        let n = xs.alternatives.len();
        let m = ys.alternatives.len();
        for i in 0..n
            invariant
                n == xs.alternatives@.len(),
                m == ys.alternatives@.len(),
                xs@.alts.len() == n,
                ys@.alts.len() == m,
                !xs@.is_any() && !xs@.is_never() && !ys@.is_any() && !ys@.is_never(),
                intersects_scan(&self.oracle, xs@, ys@, i as int, 0, deep) == intersects_scan(
                    &self.oracle,
                    xs@,
                    ys@,
                    0,
                    0,
                    deep,
                ),
                forall|k: int|
                    0 <= k < n ==> xs@.alts[k] == basic_v(#[trigger] xs.alternatives@[k]),
                forall|k: int|
                    0 <= k < m ==> ys@.alts[k] == basic_v(#[trigger] ys.alternatives@[k]),
        {
            for j in 0..m
                invariant
                    n == xs.alternatives@.len(),
                    m == ys.alternatives@.len(),
                    xs@.alts.len() == n,
                    ys@.alts.len() == m,
                    i < n,
                    !xs@.is_any() && !xs@.is_never() && !ys@.is_any() && !ys@.is_never(),
                    intersects_scan(&self.oracle, xs@, ys@, i as int, j as int, deep)
                        == intersects_scan(&self.oracle, xs@, ys@, 0, 0, deep),
                    forall|k: int|
                        0 <= k < n ==> xs@.alts[k] == basic_v(#[trigger] xs.alternatives@[k]),
                    forall|k: int|
                        0 <= k < m ==> ys@.alts[k] == basic_v(#[trigger] ys.alternatives@[k]),
            {
                proof {
                    lemma_sz_alts(xs@.alts, 0);
                    lemma_sz_alts(ys@.alts, 0);
                }
                let hit = self.intersects_basic_at(&xs.alternatives[i], &ys.alternatives[j], deep);
                if hit {
                    proof {
                        assert(intersects_scan(&self.oracle, xs@, ys@, i as int, j as int, deep));
                    }
                    return true;
                }
            }
            proof {
                lemma_sz_alts(xs@.alts, 0);
                lemma_sz_alts(ys@.alts, 0);
                assert(intersects_scan(&self.oracle, xs@, ys@, i as int, m as int, deep)
                    == intersects_scan(&self.oracle, xs@, ys@, i + 1, 0, deep));
            }
        }
        proof {
            assert(!intersects_scan(&self.oracle, xs@, ys@, n as int, 0, deep));
        }
        false
    }

    /// Whether two single alternatives might denote overlapping values.
    pub fn intersects_basic(&self, x: &TyBasic, y: &TyBasic) -> (r: bool)
        ensures
            r == intersects_basic_v(&self.oracle, x@, y@, true),
    {
        self.intersects_basic_at(x, y, true)
    }

    /// One pair of alternatives, at a given depth.
    fn intersects_basic_at(&self, x: &TyBasic, y: &TyBasic, deep: bool) -> (r: bool)
        ensures
            r == intersects_basic_v(&self.oracle, x@, y@, deep),
        decreases
                (if deep { 1int } else { 0int }),
                sz_basic(x@) + sz_basic(y@),
                0int,
                0int,
    {
        match (x, y) {
            (TyBasic::Name(xn), TyBasic::Name(yn)) => {
                *xn == *yn || self.oracle.subtype(xn, yn) || self.oracle.subtype(yn, xn)
            },
            (TyBasic::List(ex), TyBasic::List(ey)) => self.intersects_at(&**ex, &**ey, deep),
            (TyBasic::Dict(kx, vx), TyBasic::Dict(ky, vy)) => {
                self.intersects_at(&**kx, &**ky, deep) && self.intersects_at(&**vx, &**vy, deep)
            },
            (TyBasic::Tuple(txs), TyBasic::Tuple(tys)) => {
                proof {
                    crate::ty::lemma_tuple_mirror(txs@);
                    crate::ty::lemma_tuple_mirror(tys@);
                }
                let n = txs.len();
                if n != tys.len() {
                    return false;
                }
                let ghost txsv = crate::ty::tys_v(txs@, 0, Seq::empty());
                let ghost tysv = crate::ty::tys_v(tys@, 0, Seq::empty());
                for k in 0..n
                    invariant
                        n == txs@.len() == tys@.len(),
                        *x == TyBasic::Tuple(*txs),
                        *y == TyBasic::Tuple(*tys),
                        x@ == TyBasicV::Tuple(txsv),
                        y@ == TyBasicV::Tuple(tysv),
                        txsv == crate::ty::tys_v(txs@, 0, Seq::empty()),
                        tysv == crate::ty::tys_v(tys@, 0, Seq::empty()),
                        txsv.len() == n,
                        tysv.len() == n,
                        tuple_scan_v(&self.oracle, txsv, tysv, k as int, deep) == tuple_scan_v(
                            &self.oracle,
                            txsv,
                            tysv,
                            0,
                            deep,
                        ),
                        forall|q: int| 0 <= q < n ==> txsv[q] == ty_v(#[trigger] txs@[q]),
                        forall|q: int| 0 <= q < n ==> tysv[q] == ty_v(#[trigger] tys@[q]),
                {
                    proof {
                        lemma_sz_tys(txsv, 0);
                        lemma_sz_tys(tysv, 0);
                        assert(decreases_to!(*x => (*x)->Tuple_0));
                        assert((*x)->Tuple_0 == *txs);
                        assert(decreases_to!(*txs => txs@));
                        assert(decreases_to!(txs@ => txs@[k as int]));
                        assert(decreases_to!(*y => (*y)->Tuple_0));
                        assert((*y)->Tuple_0 == *tys);
                        assert(decreases_to!(*tys => tys@));
                        assert(decreases_to!(tys@ => tys@[k as int]));
                    }
                    let hit = self.intersects_at(&txs[k], &tys[k], deep);
                    if !hit {
                        proof {
                            assert(!tuple_scan_v(&self.oracle, txsv, tysv, k as int, deep));
                        }
                        return false;
                    }
                }
                true
            },
            (TyBasic::Tuple(_), t) if is_tuple_shape_exec(t) => true,
            (t, TyBasic::Tuple(_)) if is_tuple_shape_exec(t) => true,
            (TyBasic::Iter(ex), TyBasic::Iter(ey)) => self.intersects_at(&**ex, &**ey, deep),
            (TyBasic::Iter(ex), t) => self.iter_elem_vs(&**ex, t, deep),
            (t, TyBasic::Iter(ex)) => self.iter_elem_vs(&**ex, t, deep),
            (TyBasic::Custom(_), TyBasic::Custom(_)) => true,
            _ => crate::ty::basic_eq(x, y),
        }
    }

    /// The element of an iteration source against what the other side
    /// yields when iterated.
    fn iter_elem_vs(&self, ex: &Ty, t: &TyBasic, deep: bool) -> (r: bool)
        ensures
            r == iter_elem_vs_v(&self.oracle, ex@, t@, deep),
        decreases
                (if deep { 1int } else { 0int }),
                sz_ty(ex@) + sz_basic(t@),
                0int,
                1int,
    {
        match t {
            TyBasic::List(e) => self.intersects_at(ex, &**e, deep),
            TyBasic::Dict(k, _) => self.intersects_at(ex, &**k, deep),
            TyBasic::Iter(e) => self.intersects_at(ex, &**e, deep),
            TyBasic::Any => true,
            TyBasic::Tuple(ts) => {
                if deep {
                    proof {
                        crate::ty::lemma_tuple_mirror(ts@);
                    }
                    let ghost tsv = crate::ty::tys_v(ts@, 0, Seq::empty());
                    let n = ts.len();
                    for k in 0..n
                        invariant
                            n == ts@.len(),
                            *t == TyBasic::Tuple(*ts),
                            t@ == TyBasicV::Tuple(tsv),
                            tsv == crate::ty::tys_v(ts@, 0, Seq::empty()),
                            tsv.len() == n,
                            iter_tuple_scan_v(&self.oracle, ex@, tsv, k as int)
                                == iter_tuple_scan_v(&self.oracle, ex@, tsv, 0),
                            forall|q: int| 0 <= q < n ==> tsv[q] == ty_v(#[trigger] ts@[q]),
                    {
                        proof {
                            lemma_sz_tys(tsv, 0);
                            assert(decreases_to!(*t => (*t)->Tuple_0));
                            assert((*t)->Tuple_0 == *ts);
                            assert(decreases_to!(*ts => ts@));
                            assert(decreases_to!(ts@ => ts@[k as int]));
                        }
                        let hit = self.intersects_at(ex, &ts[k], false);
                        if hit {
                            proof {
                                assert(iter_tuple_scan_v(&self.oracle, ex@, tsv, k as int));
                            }
                            return true;
                        }
                    }
                    proof {
                        assert(!iter_tuple_scan_v(&self.oracle, ex@, tsv, n as int));
                    }
                    false
                } else {
                    true
                }
            },
            TyBasic::StarlarkValue(sv) => {
                if sv.name == crate::ty::new_string("tuple") {
                    true
                } else if deep {
                    match self.oracle.attr_fact(&sv.name, &TypingAttr::Iter) {
                        Option::Some(Option::Some(e)) => self.intersects_at(ex, e, false),
                        Option::Some(Option::None) => false,
                        Option::None => true,
                    }
                } else {
                    true
                }
            },
            TyBasic::Name(n) => {
                if deep {
                    match self.oracle.attr_fact(n, &TypingAttr::Iter) {
                        Option::Some(Option::Some(e)) => self.intersects_at(ex, e, false),
                        Option::Some(Option::None) => false,
                        Option::None => true,
                    }
                } else {
                    true
                }
            },
            TyBasic::Custom(_) => false,
        }
    }

    /// Whether `ty` could plausibly be a list, so that a recognised mutation
    /// through a list method should be folded into its type. `Never` is
    /// definitely not a list.
    pub fn probably_a_list(&self, ty: &Ty) -> (r: bool)
        requires
            wf_ty(ty@),
        ensures
            r == (!ty@.is_never() && intersects_v(&self.oracle, ty@, crate::ty::list_v(any_v()))),
    {
        if ty.is_never() {
            return false;
        }
        let probe = Ty::list(Ty::any());
        self.intersects(ty, &probe)
    }

    /// Check that a value of type `got` may stand where `require` is asked:
    /// they must intersect; `Never` and `Any` on either side always pass.
    pub fn validate_type(&self, got: &Ty, require: &Ty, span: Span) -> (r: Result<
        (),
        TypingError,
    >)
        ensures
            r is Ok <==> intersects_v(&self.oracle, got@, require@),
            r is Err ==> r->Err_0@ == (TypingErrorV {
                span,
                kind: TypingErrorKindV::IncompatibleType { got: got@, require: require@ },
            }),
    {
        if !self.intersects(got, require) {
            Result::Err(
                TypingError::new(
                    span,
                    TypingErrorKind::IncompatibleType { got: got.clone(), require: require.clone() },
                ),
            )
        } else {
            Result::Ok(())
        }
    }
}

/// Whether a non-tuple alternative stands for the runtime tuple type.
fn is_tuple_shape_exec(t: &TyBasic) -> (r: bool)
    ensures
        r == is_tuple_shape(t@),
{
    match t {
        TyBasic::StarlarkValue(sv) => sv.name == crate::ty::new_string("tuple"),
        _ => false,
    }
}

// ---------------------------------------------------------------------------
// Attribute resolution.
// ---------------------------------------------------------------------------

/// Well-formedness of the oracle's tables: every stored type is in normal
/// form.
pub open spec fn wf_oracle(o: &TypingOracle) -> bool {
    &&& (forall|i: int|
        0 <= i < o.attrs@.len() && #[trigger] o.attrs@[i].answer is Some ==> wf_ty(
            ty_v(o.attrs@[i].answer->0),
        ))
    &&& (forall|i: int|
        0 <= i < o.bin_ops@.len() ==> wf_ty(ty_v(#[trigger] o.bin_ops@[i].rhs)) && wf_ty(
            ty_v(o.bin_ops@[i].result),
        ))
    &&& (forall|i: int|
        0 <= i < o.callables@.len() && #[trigger] o.callables@[i].signature is Some ==> wf_sig(
            fun_v(o.callables@[i].signature->0),
        ))
}

/// Well-formedness of a callable signature.
pub open spec fn wf_sig(f: TyFunctionV) -> bool {
    wf_basic(TyBasicV::Custom(TyCustomV::Function(f)))
}

/// A found attribute fact holds a well-formed type when the table is
/// well-formed.
pub proof fn lemma_attr_lookup_wf(
    o: &TypingOracle,
    i: int,
    name: Seq<char>,
    attr: <TypingAttr as View>::V,
)
    requires
        wf_oracle(o),
        0 <= i,
    ensures
        match attr_lookup_v(o.attrs@, i, name, attr) {
            Option::Some(Option::Some(t)) => wf_ty(t),
            _ => true,
        },
    decreases o.attrs@.len() - i,
{
    if i < o.attrs@.len() {
        lemma_attr_lookup_wf(o, i + 1, name, attr);
    }
}

/// The union of well-formed types is well-formed.
pub proof fn lemma_unions_v_wf(s: Seq<TyV>, i: int, acc: TyV)
    requires
        0 <= i,
        wf_ty(acc),
        forall|j: int| 0 <= j < s.len() ==> wf_ty(#[trigger] s[j]),
    ensures
        wf_ty(unions_v(s, i, acc)),
    decreases s.len() - i,
{
    if i < s.len() {
        crate::ty::lemma_union2_v_wf(acc, s[i]);
        lemma_unions_v_wf(s, i + 1, union2_v(acc, s[i]));
    }
}

/// What an attribute (or operator pseudo-attribute) resolves to on one
/// alternative: `Some` type, or `None` where the attribute is definitively
/// unavailable there.
///
/// The resolver special-cases the shapes the engine itself understands:
/// `None` supports nothing but `|`; tuples support containment, iteration
/// and integer indexing; the opaque runtime tuple type likewise with unknown
/// elements; lists, dictionaries and iterables expose their structural
/// pseudo-attributes and defer the rest to the oracle's table; a callable
/// has no attributes; opaque named types defer to the oracle entirely, and
/// stay `Any` where it has no opinion.
pub open spec fn resolve_attr_v(
    o: &TypingOracle,
    x: TyBasicV,
    attr: <TypingAttr as View>::V,
) -> Option<TyV> {
    if x == TyBasicV::StarlarkValue(
        TyStarlarkValueV { name: "NoneType"@, has_plus: false, has_minus: false, has_bit_not: false },
    ) && attr != TypingAttrV::BinOp(TypingBinOp::BitOr) {
        Option::None
    } else {
        match x {
            TyBasicV::Any => Option::Some(any_v()),
            TyBasicV::Tuple(ts) => match attr {
                TypingAttrV::BinOp(TypingBinOp::In) => Option::Some(
                    fn1_v(unions_v(ts, 0, never_v()), bool_v()),
                ),
                TypingAttrV::Iter => Option::Some(unions_v(ts, 0, never_v())),
                TypingAttrV::Index => Option::Some(fn1_v(int_v(), unions_v(ts, 0, never_v()))),
                _ => Option::None,
            },
            TyBasicV::List(e) => match attr {
                TypingAttrV::Iter => Option::Some(e),
                TypingAttrV::Index => Option::Some(fn1_v(int_v(), e)),
                TypingAttrV::Slice => Option::Some(crate::ty::list_v(e)),
                TypingAttrV::BinOp(TypingBinOp::In) => Option::Some(fn1_v(any_v(), bool_v())),
                _ => match attr_lookup_v(o.attrs@, 0, "list"@, attr) {
                    Option::Some(ans) => ans,
                    Option::None => Option::None,
                },
            },
            TyBasicV::Dict(k, v) => match attr {
                TypingAttrV::Iter => Option::Some(k),
                TypingAttrV::Index => Option::Some(fn1_v(k, v)),
                TypingAttrV::BinOp(TypingBinOp::In) => Option::Some(fn1_v(any_v(), bool_v())),
                _ => match attr_lookup_v(o.attrs@, 0, "dict"@, attr) {
                    Option::Some(ans) => ans,
                    Option::None => Option::None,
                },
            },
            TyBasicV::Iter(e) => match attr {
                TypingAttrV::Iter => Option::Some(e),
                _ => Option::None,
            },
            TyBasicV::Custom(_) => Option::None,
            TyBasicV::StarlarkValue(sv) => if sv.name == "tuple"@ {
                match attr {
                    TypingAttrV::Iter => Option::Some(any_v()),
                    TypingAttrV::BinOp(TypingBinOp::In) => Option::Some(fn1_v(any_v(), bool_v())),
                    TypingAttrV::Index => Option::Some(fn1_v(int_v(), any_v())),
                    _ => Option::None,
                }
            } else {
                match attr_lookup_v(o.attrs@, 0, sv.name, attr) {
                    Option::Some(ans) => ans,
                    Option::None => match attr {
                        TypingAttrV::BinOp(op) => match bin_rule_v(o.bin_ops@, 0, sv.name, op) {
                            Option::Some((rhs, res)) => Option::Some(fn1_v(rhs, res)),
                            Option::None => Option::None,
                        },
                        _ => Option::None,
                    },
                }
            },
            TyBasicV::Name(n) => match attr_lookup_v(o.attrs@, 0, n, attr) {
                Option::Some(ans) => ans,
                Option::None => Option::Some(any_v()),
            },
        }
    }
}

/// The first operator rule for `(name, op)` from row `i` on, as the pair of
/// accepted right operand and result.
pub open spec fn bin_rule_v(
    rows: Seq<BinOpRule>,
    i: int,
    name: Seq<char>,
    op: TypingBinOp,
) -> Option<(TyV, TyV)>
    decreases rows.len() - i,
{
    if i < 0 || i >= rows.len() {
        Option::None
    } else if rows[i].ty_name@ == name && rows[i].op == op {
        Option::Some((ty_v(rows[i].rhs), ty_v(rows[i].result)))
    } else {
        bin_rule_v(rows, i + 1, name, op)
    }
}

/// A found operator rule holds well-formed types when the table is
/// well-formed.
pub proof fn lemma_bin_rule_wf(o: &TypingOracle, i: int, name: Seq<char>, op: TypingBinOp)
    requires
        wf_oracle(o),
        0 <= i,
    ensures
        match bin_rule_v(o.bin_ops@, i, name, op) {
            Option::Some((a, b)) => wf_ty(a) && wf_ty(b),
            Option::None => true,
        },
    decreases o.bin_ops@.len() - i,
{
    if i < o.bin_ops@.len() {
        lemma_bin_rule_wf(o, i + 1, name, op);
    }
}

/// A function of one positional argument.
pub open spec fn fn1_v(param: TyV, result: TyV) -> TyV {
    crate::ty::function_v(
        seq![ParamV { mode: ParamModeV::PosOnly, optional: false, ty: param }],
        result,
    )
}

/// The successful resolutions over the alternatives from `i` on, appended to
/// `acc`, plus whether any alternative refused the attribute.
pub open spec fn attr_scan_v(
    o: &TypingOracle,
    alts: Seq<TyBasicV>,
    attr: <TypingAttr as View>::V,
    i: int,
    acc: Seq<TyV>,
    errs: bool,
) -> (Seq<TyV>, bool)
    decreases alts.len() - i,
{
    if i < 0 || i >= alts.len() {
        (acc, errs)
    } else {
        match resolve_attr_v(o, alts[i], attr) {
            Option::Some(t) => attr_scan_v(o, alts, attr, i + 1, acc.push(t), errs),
            Option::None => attr_scan_v(o, alts, attr, i + 1, acc, true),
        }
    }
}

/// What an attribute resolves to on a whole union: the union of the
/// alternatives where it resolves; unavailable only where every alternative
/// refused it; `Any` where there was nothing to ask (`Never`).
pub open spec fn attribute_ty_v(o: &TypingOracle, t: TyV, attr: <TypingAttr as View>::V) -> Option<
    TyV,
> {
    let (rs, errs) = attr_scan_v(o, t.alts, attr, 0, Seq::empty(), false);
    if rs.len() > 0 {
        Option::Some(unions_v(rs, 0, never_v()))
    } else if errs {
        Option::None
    } else {
        Option::Some(any_v())
    }
}

impl TypingOracleCtx {
    /// What `attr` resolves to on the single alternative `x`.
    pub fn resolve_attr(&self, x: &TyBasic, attr: &TypingAttr) -> (r: Option<Ty>)
        requires
            wf_basic(x@),
            wf_oracle(&self.oracle),
        ensures
            match r {
                Option::Some(t) => resolve_attr_v(&self.oracle, x@, attr@) == Option::Some(t@)
                    && wf_ty(t@),
                Option::None => resolve_attr_v(&self.oracle, x@, attr@) is None,
            },
    {
        proof {
            lemma_attr_lookup_wf(&self.oracle, 0, "list"@, attr@);
            lemma_attr_lookup_wf(&self.oracle, 0, "dict"@, attr@);
        }
        let is_none_type = match x {
            TyBasic::StarlarkValue(sv) => {
                sv.name == crate::ty::new_string("NoneType") && !sv.has_plus && !sv.has_minus
                    && !sv.has_bit_not
            },
            _ => false,
        };
        let is_bit_or = match attr {
            TypingAttr::BinOp(TypingBinOp::BitOr) => true,
            _ => false,
        };
        if is_none_type && !is_bit_or {
            proof {
                assert(x@ == TyBasicV::StarlarkValue(
                    TyStarlarkValueV {
                        name: "NoneType"@,
                        has_plus: false,
                        has_minus: false,
                        has_bit_not: false,
                    },
                ));
                assert(attr@ != TypingAttrV::BinOp(TypingBinOp::BitOr));
            }
            return Option::None;
        }
        proof {
            assert(!(x@ == TyBasicV::StarlarkValue(
                TyStarlarkValueV {
                    name: "NoneType"@,
                    has_plus: false,
                    has_minus: false,
                    has_bit_not: false,
                },
            ) && attr@ != TypingAttrV::BinOp(TypingBinOp::BitOr)));
        }
        match x {
            TyBasic::Any => Option::Some(Ty::any()),
            TyBasic::Tuple(ts) => {
                proof {
                    crate::ty::lemma_tuple_mirror(ts@);
                    assert forall|j: int|
                        0 <= j < crate::ty::tys_v(ts@, 0, Seq::empty()).len() implies wf_ty(
                        #[trigger] crate::ty::tys_v(ts@, 0, Seq::empty())[j],
                    ) by {
                        assert(crate::ty::tys_v(ts@, 0, Seq::empty())[j] == ty_v(ts@[j]));
                        assert(wf_basic(x@));
                        crate::ty::lemma_wf_tys(crate::ty::tys_v(ts@, 0, Seq::empty()), 0);
                    }
                    lemma_unions_v_wf(crate::ty::tys_v(ts@, 0, Seq::empty()), 0, never_v());
                    assert(crate::ty::tys_v(ts@, 0, Seq::empty()) =~= crate::ty::tyseq_v(ts@));
                }
                match attr {
                    TypingAttr::BinOp(TypingBinOp::In) => {
                        let elems = Ty::unions(ts);
                        Option::Some(make_fn1(elems, Ty::bool()))
                    },
                    TypingAttr::Iter => Option::Some(Ty::unions(ts)),
                    TypingAttr::Index => {
                        let elems = Ty::unions(ts);
                        Option::Some(make_fn1(Ty::int_ty(), elems))
                    },
                    _ => Option::None,
                }
            },
            TyBasic::List(e) => {
                match attr {
                    TypingAttr::Iter => Option::Some((**e).clone()),
                    TypingAttr::Index => Option::Some(make_fn1(Ty::int_ty(), (**e).clone())),
                    TypingAttr::Slice => Option::Some(Ty::list((**e).clone())),
                    TypingAttr::BinOp(TypingBinOp::In) => Option::Some(
                        make_fn1(Ty::any(), Ty::bool()),
                    ),
                    _ => {
                        let key = crate::ty::new_string("list");
                        match self.oracle.attr_fact(&key, attr) {
                            Option::Some(Option::Some(t)) => Option::Some(t.clone()),
                            Option::Some(Option::None) => Option::None,
                            Option::None => Option::None,
                        }
                    },
                }
            },
            TyBasic::Dict(k, v) => {
                match attr {
                    TypingAttr::Iter => Option::Some((**k).clone()),
                    TypingAttr::Index => Option::Some(make_fn1((**k).clone(), (**v).clone())),
                    TypingAttr::BinOp(TypingBinOp::In) => Option::Some(
                        make_fn1(Ty::any(), Ty::bool()),
                    ),
                    _ => {
                        let key = crate::ty::new_string("dict");
                        match self.oracle.attr_fact(&key, attr) {
                            Option::Some(Option::Some(t)) => Option::Some(t.clone()),
                            Option::Some(Option::None) => Option::None,
                            Option::None => Option::None,
                        }
                    },
                }
            },
            TyBasic::Iter(e) => {
                match attr {
                    TypingAttr::Iter => Option::Some((**e).clone()),
                    _ => Option::None,
                }
            },
            TyBasic::Custom(_) => Option::None,
            TyBasic::StarlarkValue(sv) => {
                if sv.name == crate::ty::new_string("tuple") {
                    match attr {
                        TypingAttr::Iter => Option::Some(Ty::any()),
                        TypingAttr::BinOp(TypingBinOp::In) => Option::Some(
                            make_fn1(Ty::any(), Ty::bool()),
                        ),
                        TypingAttr::Index => Option::Some(make_fn1(Ty::int_ty(), Ty::any())),
                        _ => Option::None,
                    }
                } else {
                    proof {
                        lemma_attr_lookup_wf(&self.oracle, 0, sv.name@, attr@);
                    }
                    match self.oracle.attr_fact(&sv.name, attr) {
                        Option::Some(Option::Some(t)) => Option::Some(t.clone()),
                        Option::Some(Option::None) => Option::None,
                        Option::None => {
                            match attr {
                                TypingAttr::BinOp(op) => {
                                    match self.bin_rule(&sv.name, *op) {
                                        Option::Some((rhs, res)) => Option::Some(make_fn1(rhs, res)),
                                        Option::None => Option::None,
                                    }
                                },
                                _ => Option::None,
                            }
                        },
                    }
                }
            },
            TyBasic::Name(n) => {
                proof {
                    lemma_attr_lookup_wf(&self.oracle, 0, n@, attr@);
                }
                match self.oracle.attr_fact(n, attr) {
                    Option::Some(Option::Some(t)) => Option::Some(t.clone()),
                    Option::Some(Option::None) => Option::None,
                    Option::None => Option::Some(Ty::any()),
                }
            },
        }
    }

    /// What `attr` resolves to on the union `ty`: the union of the resolving
    /// alternatives; an error only where every alternative refused it.
    pub fn attribute_ty(&self, ty: &Ty, attr: &TypingAttr) -> (r: Result<Ty, ()>)
        requires
            wf_ty(ty@),
            wf_oracle(&self.oracle),
        ensures
            match r {
                Result::Ok(t) => attribute_ty_v(&self.oracle, ty@, attr@) == Option::Some(t@)
                    && wf_ty(t@),
                Result::Err(()) => attribute_ty_v(&self.oracle, ty@, attr@) is None,
            },
    {
        proof {
            lemma_ty_mirror(*ty);
            lemma_wf_alts(ty@.alts, 0);
        }
        let n = ty.alternatives.len();
        let mut results: Vec<Ty> = Vec::new();
        let mut errors = false;
        proof {
            assert(crate::ty::tyseq_v(results@) =~= Seq::<TyV>::empty());
        }
        for i in 0..n
            invariant
                n == ty.alternatives@.len(),
                ty@.alts.len() == n,
                wf_oracle(&self.oracle),
                forall|j: int|
                    0 <= j < n ==> ty@.alts[j] == basic_v(#[trigger] ty.alternatives@[j]),
                forall|j: int| 0 <= j < n ==> wf_basic(#[trigger] ty@.alts[j]),
                forall|j: int| 0 <= j < results@.len() ==> wf_ty(ty_v(#[trigger] results@[j])),
                attr_scan_v(
                    &self.oracle,
                    ty@.alts,
                    attr@,
                    i as int,
                    crate::ty::tyseq_v(results@),
                    errors,
                ) == attr_scan_v(&self.oracle, ty@.alts, attr@, 0, Seq::empty(), false),
        {
            let ghost before = crate::ty::tyseq_v(results@);
            match self.resolve_attr(&ty.alternatives[i], attr) {
                Option::Some(t) => {
                    results.push(t);
                    proof {
                        assert(crate::ty::tyseq_v(results@) =~= before.push(
                            ty_v(results@[results@.len() - 1]),
                        ));
                    }
                },
                Option::None => {
                    errors = true;
                },
            }
        }
        if results.len() > 0 {
            proof {
                assert forall|j: int|
                    0 <= j < crate::ty::tyseq_v(results@).len() implies wf_ty(
                    #[trigger] crate::ty::tyseq_v(results@)[j],
                ) by {
                    assert(crate::ty::tyseq_v(results@)[j] == ty_v(results@[j]));
                }
            }
            let u = Ty::unions(&results);
            Result::Ok(u)
        } else if errors {
            Result::Err(())
        } else {
            let r = Ty::any();
            Result::Ok(r)
        }
    }
}

impl TypingOracleCtx {
    /// The first operator rule for the named type and operator, as clones
    /// of its accepted right operand and result types.
    fn bin_rule(&self, name: &String, op: TypingBinOp) -> (r: Option<(Ty, Ty)>)
        requires
            wf_oracle(&self.oracle),
        ensures
            match r {
                Option::Some((a, b)) => bin_rule_v(self.oracle.bin_ops@, 0, name@, op)
                    == Option::Some((a@, b@)) && wf_ty(a@) && wf_ty(b@),
                Option::None => bin_rule_v(self.oracle.bin_ops@, 0, name@, op) is None,
            },
    {
        proof {
            lemma_bin_rule_wf(&self.oracle, 0, name@, op);
        }
        let n = self.oracle.bin_ops.len();
        for i in 0..n
            invariant
                n == self.oracle.bin_ops@.len(),
                wf_oracle(&self.oracle),
                bin_rule_v(self.oracle.bin_ops@, i as int, name@, op) == bin_rule_v(
                    self.oracle.bin_ops@,
                    0,
                    name@,
                    op,
                ),
        {
            let row = &self.oracle.bin_ops[i];
            if row.ty_name == *name && row.op == op {
                proof {
                    lemma_bin_rule_wf(&self.oracle, 0, name@, op);
                }
                let a = row.rhs.clone();
                let b = row.result.clone();
                return Option::Some((a, b));
            }
        }
        Option::None
    }
}

/// A function of one positional argument.
pub fn make_fn1(param: Ty, result: Ty) -> (r: Ty)
    requires
        wf_ty(param@),
        wf_ty(result@),
    ensures
        r@ == fn1_v(param@, result@),
        wf_ty(r@),
{
    let ghost pv = param@;
    let mut ps: Vec<Param> = Vec::new();
    ps.push(Param::pos_only(param));
    proof {
        crate::ty::lemma_params_mirror(ps@);
        assert(crate::ty::params_v(ps@, 0, Seq::empty()) =~= seq![
            ParamV { mode: ParamModeV::PosOnly, optional: false, ty: pv },
        ]);
    }
    Ty::function(ps, result)
}


// ---------------------------------------------------------------------------
// Argument binding and call validation.
// ---------------------------------------------------------------------------

/// Which parameter the next positional argument binds to, from a cursor:
/// skips parameters that cannot take a positional argument, stays on a
/// variadic `*args` parameter, and reports `None` when the parameters are
/// exhausted. Returns the bound index and the new cursor.
pub open spec fn bind_pos_v(params: Seq<ParamV>, pos: int) -> Option<(int, int)>
    decreases params.len() - pos,
{
    if pos < 0 || pos >= params.len() {
        Option::None
    } else {
        let newpos = if params[pos].mode is Args {
            pos
        } else {
            pos + 1
        };
        if params[pos].mode is PosOnly || params[pos].mode is PosOrName || params[pos].mode is Args {
            Option::Some((pos, newpos))
        } else {
            bind_pos_v(params, newpos)
        }
    }
}

/// Which parameter a named argument binds to, from index `j` on: the first
/// parameter with that name, or the first `**kwargs` parameter.
pub open spec fn bind_name_v(params: Seq<ParamV>, j: int, name: Seq<char>) -> Option<int>
    decreases params.len() - j,
{
    if j < 0 || j >= params.len() {
        Option::None
    } else if (params[j].mode is PosOrName && params[j].mode->PosOrName_0 == name) || (
    params[j].mode is NameOnly && params[j].mode->NameOnly_0 == name) || params[j].mode is Kwargs {
        Option::Some(j)
    } else {
        bind_name_v(params, j + 1, name)
    }
}

/// The binding state: per parameter, the spans and types of the arguments
/// assigned to it; the positional cursor; whether a spread was seen.
pub struct BindSt {
    /// Per parameter, the assigned arguments.
    pub collected: Seq<Seq<(Span, TyV)>>,
    /// The next parameter a positional argument might fill.
    pub cursor: int,
    /// Whether a `*args` or `**kwargs` spread was seen anywhere in the call.
    pub seen_vargs: bool,
}

/// The outcome of the binding walk.
pub enum BindOut {
    /// All arguments were assigned.
    Done(BindSt),
    /// A positional argument had no parameter left to bind to.
    TooMany(Span),
    /// A named argument matched no parameter.
    Unknown(Span, Seq<char>),
}

/// No arguments assigned to any of `n` parameters yet.
pub open spec fn empty_bind_v(n: nat) -> BindSt {
    BindSt { collected: Seq::new(n, |i: int| Seq::empty()), cursor: 0, seen_vargs: false }
}

/// Walk the arguments from `i` on, assigning each to a parameter.
pub open spec fn bind_args_v(
    params: Seq<ParamV>,
    args: Seq<(Span, ArgV)>,
    i: int,
    st: BindSt,
) -> BindOut
    decreases args.len() - i,
{
    if i < 0 || i >= args.len() {
        BindOut::Done(st)
    } else {
        match args[i].1 {
            ArgV::Pos(t) => match bind_pos_v(params, st.cursor) {
                Option::None => BindOut::TooMany(args[i].0),
                Option::Some((found, newpos)) => bind_args_v(
                    params,
                    args,
                    i + 1,
                    BindSt {
                        collected: st.collected.update(
                            found,
                            st.collected[found].push((args[i].0, t)),
                        ),
                        cursor: newpos,
                        seen_vargs: st.seen_vargs,
                    },
                ),
            },
            ArgV::Name(nm, t) => match bind_name_v(params, 0, nm) {
                Option::None => BindOut::Unknown(args[i].0, nm),
                Option::Some(j) => bind_args_v(
                    params,
                    args,
                    i + 1,
                    BindSt {
                        collected: st.collected.update(j, st.collected[j].push((args[i].0, t))),
                        cursor: st.cursor,
                        seen_vargs: st.seen_vargs,
                    },
                ),
            },
            ArgV::Args(_) => bind_args_v(
                params,
                args,
                i + 1,
                BindSt { collected: st.collected, cursor: params.len() as int, seen_vargs: true },
            ),
            ArgV::Kwargs(_) => bind_args_v(
                params,
                args,
                i + 1,
                BindSt { collected: st.collected, cursor: st.cursor, seen_vargs: true },
            ),
        }
    }
}

/// The value types of the dictionary alternatives of a `**kwargs`
/// parameter's declared type, from `i` on.
pub open spec fn dict_vals_v(alts: Seq<TyBasicV>, i: int, acc: Seq<TyV>) -> Seq<TyV>
    decreases alts.len() - i,
{
    if i < 0 || i >= alts.len() {
        acc
    } else {
        match alts[i] {
            TyBasicV::Dict(_, v) => dict_vals_v(alts, i + 1, acc.push(v)),
            _ => dict_vals_v(alts, i + 1, acc),
        }
    }
}

/// The type the arguments assigned to a parameter are validated against:
/// its declared type; for `**kwargs`, the union of the declared dictionary
/// value types, or nothing where the declared type holds none.
pub open spec fn param_require_v(p: ParamV) -> Option<TyV> {
    if p.mode is Kwargs {
        let vals = dict_vals_v(p.ty.alts, 0, Seq::empty());
        if vals.len() == 0 {
            Option::None
        } else {
            Option::Some(unions_v(vals, 0, never_v()))
        }
    } else {
        Option::Some(p.ty)
    }
}

/// A display name for a parameter, for diagnostics.
pub open spec fn param_name_v(p: ParamV) -> Seq<char> {
    match p.mode {
        ParamModeV::PosOrName(n) => n,
        ParamModeV::NameOnly(n) => n,
        ParamModeV::PosOnly => "_"@,
        ParamModeV::Args => "*args"@,
        ParamModeV::Kwargs => "**kwargs"@,
    }
}

/// The first assigned argument from `k` on that does not intersect the
/// required type, if any.
pub open spec fn first_incompat_v(
    o: &TypingOracle,
    require: TyV,
    coll: Seq<(Span, TyV)>,
    k: int,
) -> Option<(Span, TyV)>
    decreases coll.len() - k,
{
    if k < 0 || k >= coll.len() {
        Option::None
    } else if !intersects_v(o, coll[k].1, require) {
        Option::Some(coll[k])
    } else {
        first_incompat_v(o, require, coll, k + 1)
    }
}

/// The outcome of checking the assigned arguments against the parameters.
pub enum CheckOut {
    /// Every parameter is satisfied.
    Good,
    /// A required parameter received nothing, and no spread could have
    /// filled it.
    Missing(Span, Seq<char>),
    /// An assigned argument does not intersect the required type.
    Incompat(Span, TyV, TyV),
}

/// Check parameters from `j` on against their assigned arguments.
pub open spec fn check_params_v(
    o: &TypingOracle,
    params: Seq<ParamV>,
    collected: Seq<Seq<(Span, TyV)>>,
    seen_vargs: bool,
    span: Span,
    j: int,
) -> CheckOut
    decreases params.len() - j,
{
    if j < 0 || j >= params.len() || collected.len() != params.len() {
        CheckOut::Good
    } else if collected[j].len() == 0 {
        if !params[j].optional && !seen_vargs {
            CheckOut::Missing(span, param_name_v(params[j]))
        } else {
            check_params_v(o, params, collected, seen_vargs, span, j + 1)
        }
    } else {
        match param_require_v(params[j]) {
            Option::None => check_params_v(o, params, collected, seen_vargs, span, j + 1),
            Option::Some(req) => match first_incompat_v(o, req, collected[j], 0) {
                Option::Some((sp, got)) => CheckOut::Incompat(sp, got, req),
                Option::None => check_params_v(o, params, collected, seen_vargs, span, j + 1),
            },
        }
    }
}

/// The whole argument validation: bind every argument to a parameter, then
/// check each parameter's assigned arguments against its declared type.
/// `None` means the call shape is fine.
pub open spec fn validate_args_v(
    o: &TypingOracle,
    params: Seq<ParamV>,
    args: Seq<(Span, ArgV)>,
    span: Span,
) -> Option<TypingErrorV> {
    match bind_args_v(params, args, 0, empty_bind_v(params.len())) {
        BindOut::TooMany(sp) => Option::Some(
            TypingErrorV { span: sp, kind: TypingErrorKindV::TooManyPositionalArguments },
        ),
        BindOut::Unknown(sp, nm) => Option::Some(
            TypingErrorV { span: sp, kind: TypingErrorKindV::UnexpectedNamedArgument { name: nm } },
        ),
        BindOut::Done(st) => match check_params_v(
            o,
            params,
            st.collected,
            st.seen_vargs,
            span,
            0,
        ) {
            CheckOut::Good => Option::None,
            CheckOut::Missing(sp, nm) => Option::Some(
                TypingErrorV {
                    span: sp,
                    kind: TypingErrorKindV::MissingRequiredParameter { name: nm },
                },
            ),
            CheckOut::Incompat(sp, got, req) => Option::Some(
                TypingErrorV {
                    span: sp,
                    kind: TypingErrorKindV::IncompatibleType { got, require: req },
                },
            ),
        },
    }
}




/// Find the parameter a positional argument binds to, from the cursor on.
/// Returns the parameter's index and the new cursor.
fn bind_pos_exec(params: &Vec<Param>, cursor: usize) -> (r: (Option<usize>, usize))
    requires
        cursor <= params@.len(),
    ensures
        r.1 <= params@.len(),
        match r.0 {
            Option::None => bind_pos_v(crate::ty::params_v(params@, 0, Seq::empty()), cursor as int)
                is None,
            Option::Some(f) => bind_pos_v(
                crate::ty::params_v(params@, 0, Seq::empty()),
                cursor as int,
            ) == Option::Some((f as int, r.1 as int)) && f < params@.len(),
        },
{
    let ghost ps = crate::ty::params_v(params@, 0, Seq::empty());
    proof {
        crate::ty::lemma_params_mirror(params@);
    }
    let np = params.len();
    let mut pos = cursor;
    loop
        invariant
            np == params@.len(),
            ps == crate::ty::params_v(params@, 0, Seq::empty()),
            ps.len() == np,
            forall|q: int| 0 <= q < np ==> ps[q] == crate::ty::param_v(#[trigger] params@[q]),
            pos <= np,
            bind_pos_v(ps, pos as int) == bind_pos_v(ps, cursor as int),
        decreases np - pos,
    {
        if pos >= np {
            return (Option::None, pos);
        }
        let is_args = match &params[pos].mode {
            crate::ty::ParamMode::Args => true,
            _ => false,
        };
        let newpos = if is_args {
            pos
        } else {
            pos + 1
        };
        if params[pos].allows_pos() {
            return (Option::Some(pos), newpos);
        }
        proof {
            assert(!(ps[pos as int].mode is Args));
        }
        pos = newpos;
    }
}

/// Find the parameter a named argument binds to: the first parameter with
/// that name, or the first `**kwargs`.
fn bind_name_exec(params: &Vec<Param>, name: &String) -> (r: Option<usize>)
    ensures
        match r {
            Option::None => bind_name_v(crate::ty::params_v(params@, 0, Seq::empty()), 0, name@)
                is None,
            Option::Some(f) => bind_name_v(
                crate::ty::params_v(params@, 0, Seq::empty()),
                0,
                name@,
            ) == Option::Some(f as int) && f < params@.len(),
        },
{
    let ghost ps = crate::ty::params_v(params@, 0, Seq::empty());
    proof {
        crate::ty::lemma_params_mirror(params@);
    }
    let np = params.len();
    for j in 0..np
        invariant
            np == params@.len(),
            ps == crate::ty::params_v(params@, 0, Seq::empty()),
            ps.len() == np,
            forall|q: int| 0 <= q < np ==> ps[q] == crate::ty::param_v(#[trigger] params@[q]),
            bind_name_v(ps, j as int, name@) == bind_name_v(ps, 0, name@),
    {
        let hit = match &params[j].mode {
            crate::ty::ParamMode::PosOrName(pn) => *pn == *name,
            crate::ty::ParamMode::NameOnly(pn) => *pn == *name,
            crate::ty::ParamMode::Kwargs => true,
            _ => false,
        };
        if hit {
            return Option::Some(j);
        }
    }
    Option::None
}

/// A copy of an argument row with one more argument at the end.
fn row_with(row: &Vec<(Span, Ty)>, sp: Span, t: &Ty) -> (r: Vec<(Span, Ty)>)
    ensures
        pairs_v(r@) == pairs_v(row@).push((sp, ty_v(*t))),
{
    let mut out: Vec<(Span, Ty)> = Vec::new();
    let n = row.len();
    for q in 0..n
        invariant
            n == row@.len(),
            out@.len() == q,
            forall|z: int|
                #![trigger out@[z]]
                0 <= z < q ==> out@[z].0 == row@[z].0 && ty_v(out@[z].1) == ty_v(row@[z].1),
    {
        let c = row[q].1.clone();
        out.push((row[q].0, c));
    }
    let tc = t.clone();
    out.push((sp, tc));
    proof {
        assert forall|z: int|
            0 <= z < out@.len() implies pairs_v(out@)[z] == pairs_v(row@).push(
            (sp, ty_v(*t)),
        )[z] by {
            if z < row@.len() {
                assert(pairs_v(out@)[z] == (out@[z].0, ty_v(out@[z].1)));
                assert(pairs_v(row@)[z] == (row@[z].0, ty_v(row@[z].1)));
            } else {
                assert(pairs_v(out@)[z] == (out@[z].0, ty_v(out@[z].1)));
            }
        }
        assert(pairs_v(out@) =~= pairs_v(row@).push((sp, ty_v(*t))));
    }
    out
}

/// Ghost mirror of a collected argument list.
pub open spec fn pairs_v(s: Seq<(Span, Ty)>) -> Seq<(Span, TyV)> {
    Seq::new(s.len(), |k: int| (s[k].0, ty_v(s[k].1)))
}

/// Ghost mirror of the whole per-parameter collection.
pub open spec fn coll_v(c: Seq<Vec<(Span, Ty)>>) -> Seq<Seq<(Span, TyV)>> {
    Seq::new(c.len(), |i: int| pairs_v(c[i]@))
}

impl TypingOracleCtx {
    /// Bind every argument to a parameter, then check each parameter's
    /// assigned arguments against its declared type: positional arguments
    /// walk a cursor (staying on `*args`), named arguments match by name or
    /// fall to `**kwargs`, spreads mark every remaining required parameter
    /// as possibly satisfied. Exactly the first mismatch is reported.
    pub fn validate_args(
        &self,
        params: &Vec<Param>,
        args: &Vec<Spanned<Arg>>,
        span: Span,
    ) -> (r: Result<(), TypingError>)
        requires
            wf_oracle(&self.oracle),
            crate::ty::wf_params(crate::ty::params_v(params@, 0, Seq::empty()), 0),
        ensures
            match validate_args_v(
                &self.oracle,
                crate::ty::params_v(params@, 0, Seq::empty()),
                args_v(args@),
                span,
            ) {
                Option::None => r is Ok,
                Option::Some(e) => r is Err && r->Err_0@ == e,
            },
    {
        let ghost ps = crate::ty::params_v(params@, 0, Seq::empty());
        proof {
            crate::ty::lemma_params_mirror(params@);
        }
        let np = params.len();
        let na = args.len();
        let mut collected: Vec<Vec<(Span, Ty)>> = Vec::new();
        for z in 0..np
            invariant
                collected@.len() == z,
                forall|q: int| 0 <= q < z ==> (#[trigger] collected@[q])@.len() == 0,
        {
            collected.push(Vec::new());
        }
        let mut cursor: usize = 0;
        let mut seen_vargs = false;
        proof {
            assert forall|q: int| 0 <= q < np implies coll_v(collected@)[q] =~= Seq::<(
                Span,
                TyV,
            )>::empty() by {}
            assert(coll_v(collected@) =~= empty_bind_v(ps.len()).collected);
        }
        for i in 0..na
            invariant
                np == params@.len(),
                na == args@.len(),
                ps == crate::ty::params_v(params@, 0, Seq::empty()),
                ps.len() == np,
                forall|q: int| 0 <= q < np ==> ps[q] == crate::ty::param_v(#[trigger] params@[q]),
                collected@.len() == np,
                cursor <= np,
                bind_args_v(
                    ps,
                    args_v(args@),
                    i as int,
                    BindSt {
                        collected: coll_v(collected@),
                        cursor: cursor as int,
                        seen_vargs,
                    },
                ) == bind_args_v(ps, args_v(args@), 0, empty_bind_v(ps.len())),
        {
            let ghost st0 = BindSt {
                collected: coll_v(collected@),
                cursor: cursor as int,
                seen_vargs,
            };
            let arg_span = args[i].span;
            match &args[i].node {
                Arg::Pos(t) => {
                    let (found, newpos) = bind_pos_exec(params, cursor);
                    cursor = newpos;
                    match found {
                        Option::None => {
                            return Result::Err(
                                TypingError::new(
                                    arg_span,
                                    TypingErrorKind::TooManyPositionalArguments,
                                ),
                            );
                        },
                        Option::Some(f) => {
                            let ghost before = coll_v(collected@);
                            let newrow = row_with(&collected[f], arg_span, t);
                            collected.set(f, newrow);
                            proof {
                                assert(pairs_v(collected@[f as int]@) =~= before[f as int].push(
                                    (arg_span, ty_v(*t)),
                                ));
                                assert(coll_v(collected@) =~= before.update(
                                    f as int,
                                    before[f as int].push((arg_span, ty_v(*t))),
                                ));
                            }
                        },
                    }
                },
                Arg::Name(nm, t) => {
                    match bind_name_exec(params, nm) {
                        Option::None => {
                            return Result::Err(
                                TypingError::new(
                                    arg_span,
                                    TypingErrorKind::UnexpectedNamedArgument { name: nm.clone() },
                                ),
                            );
                        },
                        Option::Some(f) => {
                            let ghost before = coll_v(collected@);
                            let newrow = row_with(&collected[f], arg_span, t);
                            collected.set(f, newrow);
                            proof {
                                assert(pairs_v(collected@[f as int]@) =~= before[f as int].push(
                                    (arg_span, ty_v(*t)),
                                ));
                                assert(coll_v(collected@) =~= before.update(
                                    f as int,
                                    before[f as int].push((arg_span, ty_v(*t))),
                                ));
                            }
                        },
                    }
                },
                Arg::Args(_) => {
                    cursor = np;
                    seen_vargs = true;
                },
                Arg::Kwargs(_) => {
                    seen_vargs = true;
                },
            }
        }
        // Check each parameter's assigned arguments against its type.
        let ghost st = BindSt {
            collected: coll_v(collected@),
            cursor: cursor as int,
            seen_vargs,
        };
        for j in 0..np
            invariant
                np == params@.len(),
                ps == crate::ty::params_v(params@, 0, Seq::empty()),
                ps.len() == np,
                wf_oracle(&self.oracle),
                crate::ty::wf_params(ps, 0),
                forall|q: int| 0 <= q < np ==> ps[q] == crate::ty::param_v(#[trigger] params@[q]),
                collected@.len() == np,
                st.collected == coll_v(collected@),
                st.seen_vargs == seen_vargs,
                bind_args_v(ps, args_v(args@), 0, empty_bind_v(ps.len())) == BindOut::Done(st),
                check_params_v(&self.oracle, ps, st.collected, seen_vargs, span, j as int)
                    == check_params_v(&self.oracle, ps, st.collected, seen_vargs, span, 0),
        {
            proof {
                crate::ty::lemma_wf_params(ps, 0);
            }
            let row = &collected[j];
            if row.len() == 0 {
                if !params[j].optional && !seen_vargs {
                    proof {
                        assert(pairs_v(collected@[j as int]@).len() == 0);
                    }
                    let name = params[j].name();
                    return Result::Err(
                        TypingError::new(
                            span,
                            TypingErrorKind::MissingRequiredParameter { name },
                        ),
                    );
                }
                proof {
                    assert(pairs_v(collected@[j as int]@).len() == 0);
                }
            } else {
                proof {
                    assert(pairs_v(collected@[j as int]@).len() > 0);
                }
                // The type to validate against.
                let is_kwargs = match &params[j].mode {
                    crate::ty::ParamMode::Kwargs => true,
                    _ => false,
                };
                let require: Option<Ty> = if is_kwargs {
                    proof {
                        lemma_ty_mirror(params[j as int].ty);
                        lemma_wf_alts(crate::ty::ty_v(params[j as int].ty).alts, 0);
                    }
                    let pt = &params[j].ty;
                    let m = pt.alternatives.len();
                    let mut vals: Vec<Ty> = Vec::new();
                    proof {
                        assert(crate::ty::tyseq_v(vals@) =~= Seq::<TyV>::empty());
                    }
                    for k in 0..m
                        invariant
                            m == pt.alternatives@.len(),
                            ty_v(*pt).alts.len() == m,
                            wf_ty(ty_v(*pt)),
                            forall|q: int|
                                0 <= q < m ==> ty_v(*pt).alts[q] == basic_v(
                                    #[trigger] pt.alternatives@[q],
                                ),
                            forall|q: int| 0 <= q < m ==> wf_basic(#[trigger] ty_v(*pt).alts[q]),
                            forall|q: int|
                                0 <= q < vals@.len() ==> wf_ty(ty_v(#[trigger] vals@[q])),
                            dict_vals_v(ty_v(*pt).alts, k as int, crate::ty::tyseq_v(vals@))
                                == dict_vals_v(ty_v(*pt).alts, 0, Seq::empty()),
                    {
                        let ghost before = crate::ty::tyseq_v(vals@);
                        match &pt.alternatives[k] {
                            TyBasic::Dict(_, v) => {
                                let vc = (**v).clone();
                                vals.push(vc);
                                proof {
                                    assert(crate::ty::tyseq_v(vals@) =~= before.push(
                                        ty_v(vals@[vals@.len() - 1]),
                                    ));
                                }
                            },
                            _ => {},
                        }
                    }
                    if vals.len() == 0 {
                        Option::None
                    } else {
                        proof {
                            assert forall|q: int|
                                0 <= q < crate::ty::tyseq_v(vals@).len() implies wf_ty(
                                #[trigger] crate::ty::tyseq_v(vals@)[q],
                            ) by {
                                assert(crate::ty::tyseq_v(vals@)[q] == ty_v(vals@[q]));
                            }
                        }
                        let u = Ty::unions(&vals);
                        Option::Some(u)
                    }
                } else {
                    Option::Some(params[j].ty.clone())
                };
                match require {
                    Option::None => {
                        proof {
                            assert(param_require_v(ps[j as int]) is None);
                        }
                    },
                    Option::Some(req) => {
                        proof {
                            assert(param_require_v(ps[j as int]) == Option::Some(req@));
                        }
                        let nr = row.len();
                        for k in 0..nr
                            invariant
                                nr == row@.len(),
                                row == collected@[j as int],
                                collected@.len() == np,
                                j < np,
                                ps.len() == np,
                                ps == crate::ty::params_v(params@, 0, Seq::empty()),
                                seen_vargs == st.seen_vargs,
                                st.collected == coll_v(collected@),
                                bind_args_v(ps, args_v(args@), 0, empty_bind_v(ps.len()))
                                    == BindOut::Done(st),
                                check_params_v(
                                    &self.oracle,
                                    ps,
                                    st.collected,
                                    seen_vargs,
                                    span,
                                    j as int,
                                ) == check_params_v(
                                    &self.oracle,
                                    ps,
                                    st.collected,
                                    seen_vargs,
                                    span,
                                    0,
                                ),
                                wf_oracle(&self.oracle),
                                param_require_v(ps[j as int]) == Option::Some(req@),
                                st.collected == coll_v(collected@),
                                first_incompat_v(
                                    &self.oracle,
                                    req@,
                                    pairs_v(row@),
                                    k as int,
                                ) == first_incompat_v(&self.oracle, req@, pairs_v(row@), 0),
                        {
                            let hit = self.intersects(&row[k].1, &req);
                            if !hit {
                                proof {
                                    assert(pairs_v(row@)[k as int] == (
                                        row@[k as int].0,
                                        ty_v(row@[k as int].1),
                                    ));
                                    assert(first_incompat_v(&self.oracle, req@, pairs_v(row@), 0)
                                        == Option::Some((row@[k as int].0, ty_v(row@[k as int].1))));
                                    assert(st.collected.len() == ps.len());
                                    assert(st.collected[j as int] == pairs_v(row@));
                                    assert(pairs_v(row@).len() > 0);
                                    assert(check_params_v(
                                        &self.oracle,
                                        ps,
                                        st.collected,
                                        seen_vargs,
                                        span,
                                        j as int,
                                    ) == CheckOut::Incompat(
                                        row@[k as int].0,
                                        ty_v(row@[k as int].1),
                                        req@,
                                    ));
                                }
                                let ghost reqv = req@;
                                let gotc = row[k].1.clone();
                                let err = TypingError::new(
                                    row[k].0,
                                    TypingErrorKind::IncompatibleType { got: gotc, require: req },
                                );
                                proof {
                                    assert(err@ == (TypingErrorV {
                                        span: row@[k as int].0,
                                        kind: TypingErrorKindV::IncompatibleType {
                                            got: ty_v(row@[k as int].1),
                                            require: reqv,
                                        },
                                    }));
                                    assert(validate_args_v(&self.oracle, ps, args_v(args@), span)
                                        == Option::Some(err@));
                                }
                                return Result::Err(err);
                            }
                            proof {
                                assert(pairs_v(row@)[k as int] == (
                                    row@[k as int].0,
                                    ty_v(row@[k as int].1),
                                ));
                            }
                        }
                        proof {
                            assert(first_incompat_v(&self.oracle, req@, pairs_v(row@), nr as int)
                                is None);
                        }
                    },
                }
            }
        }
        Result::Ok(())
    }
}


// ---------------------------------------------------------------------------
// Call validation.
// ---------------------------------------------------------------------------

/// The first callability fact for `name` from row `i` on.
pub open spec fn callable_lookup_v(rows: Seq<CallableFact>, i: int, name: Seq<char>) -> Option<
    Option<TyFunction>,
>
    decreases rows.len() - i,
{
    if i < 0 || i >= rows.len() {
        Option::None
    } else if rows[i].ty_name@ == name {
        Option::Some(rows[i].signature)
    } else {
        callable_lookup_v(rows, i + 1, name)
    }
}

/// Validate a call against one known signature: bind and check the
/// arguments; on success the call has the signature's declared result type.
pub open spec fn validate_fn_call_v(
    o: &TypingOracle,
    f: TyFunctionV,
    args: Seq<(Span, ArgV)>,
    span: Span,
) -> Result<TyV, TypingErrorV> {
    match validate_args_v(o, f.params, args, span) {
        Option::Some(e) => Result::Err(e),
        Option::None => Result::Ok(f.result),
    }
}

/// Validate a call to one alternative: `Any` and iterables may be anything
/// callable; a known signature is checked; concrete non-callable shapes are
/// errors; a named type defers to the oracle's callability facts, staying
/// permissive where the oracle has no opinion.
pub open spec fn validate_call_basic_v(
    o: &TypingOracle,
    x: TyBasicV,
    args: Seq<(Span, ArgV)>,
    span: Span,
) -> Result<TyV, TypingErrorV> {
    match x {
        TyBasicV::Any => Result::Ok(any_v()),
        TyBasicV::Iter(_) => Result::Ok(any_v()),
        TyBasicV::Custom(TyCustomV::Function(f)) => validate_fn_call_v(o, f, args, span),
        TyBasicV::Name(n) => match callable_lookup_v(o.callables@, 0, n) {
            Option::None => Result::Ok(any_v()),
            Option::Some(Option::Some(f)) => validate_fn_call_v(o, fun_v(f), args, span),
            Option::Some(Option::None) => Result::Err(
                TypingErrorV {
                    span,
                    kind: TypingErrorKindV::CallToNonCallable {
                        ty: TyV { alts: seq![x] },
                    },
                },
            ),
        },
        _ => Result::Err(
            TypingErrorV {
                span,
                kind: TypingErrorKindV::CallToNonCallable { ty: TyV { alts: seq![x] } },
            },
        ),
    }
}

/// Scan the alternatives of the called type, collecting the successful
/// results and the per-alternative errors.
pub open spec fn call_scan_v(
    o: &TypingOracle,
    alts: Seq<TyBasicV>,
    args: Seq<(Span, ArgV)>,
    span: Span,
    i: int,
    good: Seq<TyV>,
    errs: Seq<TypingErrorV>,
) -> (Seq<TyV>, Seq<TypingErrorV>)
    decreases alts.len() - i,
{
    if i < 0 || i >= alts.len() {
        (good, errs)
    } else {
        match validate_call_basic_v(o, alts[i], args, span) {
            Result::Ok(t) => call_scan_v(o, alts, args, span, i + 1, good.push(t), errs),
            Result::Err(e) => call_scan_v(o, alts, args, span, i + 1, good, errs.push(e)),
        }
    }
}

/// Validate a call to a union: every alternative is tried; if at least one
/// succeeds the call succeeds with the union of the successful results
/// (failed alternatives are forgiven); if none does, the one error is
/// reported as itself, several differing failures as one combined error.
pub open spec fn validate_call_v(
    o: &TypingOracle,
    fun: TyV,
    args: Seq<(Span, ArgV)>,
    span: Span,
) -> Result<TyV, TypingErrorV> {
    let (good, errs) = call_scan_v(o, fun.alts, args, span, 0, Seq::empty(), Seq::empty());
    if good.len() > 0 {
        Result::Ok(unions_v(good, 0, never_v()))
    } else if errs.len() == 1 {
        Result::Err(errs[0])
    } else {
        Result::Err(
            TypingErrorV { span, kind: TypingErrorKindV::CallArgumentsIncompatible },
        )
    }
}


impl TypingOracleCtx {
    /// Validate a call against one known signature.
    pub fn validate_fn_call(&self, span: Span, f: &TyFunction, args: &Vec<Spanned<Arg>>) -> (r:
        Result<Ty, TypingError>)
        requires
            wf_oracle(&self.oracle),
            wf_sig(fun_v(*f)),
        ensures
            match r {
                Result::Ok(t) => validate_fn_call_v(&self.oracle, fun_v(*f), args_v(args@), span)
                    == Result::<TyV, TypingErrorV>::Ok(t@) && wf_ty(t@),
                Result::Err(e) => validate_fn_call_v(&self.oracle, fun_v(*f), args_v(args@), span)
                    == Result::<TyV, TypingErrorV>::Err(e@),
            },
    {
        proof {
            crate::ty::lemma_params_mirror(f.params@);
        }
        match self.validate_args(&f.params, args, span) {
            Result::Err(e) => Result::Err(e),
            Result::Ok(()) => {
                let t = (*f.result).clone();
                Result::Ok(t)
            },
        }
    }

    /// Validate a call to a whole union: every alternative is tried, and a
    /// single success forgives the failures.
    pub fn validate_call(&self, span: Span, fun: &Ty, args: &Vec<Spanned<Arg>>) -> (r: Result<
        Ty,
        TypingError,
    >)
        requires
            wf_oracle(&self.oracle),
            wf_ty(fun@),
        ensures
            match r {
                Result::Ok(t) => validate_call_v(&self.oracle, fun@, args_v(args@), span)
                    == Result::<TyV, TypingErrorV>::Ok(t@) && wf_ty(t@),
                Result::Err(e) => validate_call_v(&self.oracle, fun@, args_v(args@), span)
                    == Result::<TyV, TypingErrorV>::Err(e@),
            },
    {
        proof {
            lemma_ty_mirror(*fun);
            lemma_wf_alts(fun@.alts, 0);
        }
        let n = fun.alternatives.len();
        let mut good: Vec<Ty> = Vec::new();
        let mut errs: Vec<TypingError> = Vec::new();
        proof {
            assert(crate::ty::tyseq_v(good@) =~= Seq::<TyV>::empty());
            assert(errs_v(errs@) =~= Seq::<TypingErrorV>::empty());
        }
        for i in 0..n
            invariant
                n == fun.alternatives@.len(),
                fun@.alts.len() == n,
                wf_oracle(&self.oracle),
                forall|j: int|
                    0 <= j < n ==> fun@.alts[j] == basic_v(#[trigger] fun.alternatives@[j]),
                forall|j: int| 0 <= j < n ==> wf_basic(#[trigger] fun@.alts[j]),
                forall|j: int| 0 <= j < good@.len() ==> wf_ty(ty_v(#[trigger] good@[j])),
                call_scan_v(
                    &self.oracle,
                    fun@.alts,
                    args_v(args@),
                    span,
                    i as int,
                    crate::ty::tyseq_v(good@),
                    errs_v(errs@),
                ) == call_scan_v(
                    &self.oracle,
                    fun@.alts,
                    args_v(args@),
                    span,
                    0,
                    Seq::empty(),
                    Seq::empty(),
                ),
        {
            let ghost good0 = crate::ty::tyseq_v(good@);
            let ghost errs0 = errs_v(errs@);
            match self.validate_call_basic(span, &fun.alternatives[i], args) {
                Result::Ok(t) => {
                    good.push(t);
                    proof {
                        assert(crate::ty::tyseq_v(good@) =~= good0.push(
                            ty_v(good@[good@.len() - 1]),
                        ));
                    }
                },
                Result::Err(e) => {
                    errs.push(e);
                    proof {
                        assert(errs_v(errs@) =~= errs0.push(errs@[errs@.len() - 1]@));
                    }
                },
            }
        }
        if good.len() > 0 {
            proof {
                assert forall|j: int|
                    0 <= j < crate::ty::tyseq_v(good@).len() implies wf_ty(
                    #[trigger] crate::ty::tyseq_v(good@)[j],
                ) by {
                    assert(crate::ty::tyseq_v(good@)[j] == ty_v(good@[j]));
                }
            }
            let u = Ty::unions(&good);
            Result::Ok(u)
        } else if errs.len() == 1 {
            let e = errs.pop().unwrap();
            proof {
                assert(errs_v(errs@.push(e))[0] == e@);
            }
            Result::Err(e)
        } else {
            Result::Err(TypingError::new(span, TypingErrorKind::CallArgumentsIncompatible))
        }
    }

    /// Validate a call to one alternative of the called type.
    pub fn validate_call_basic(&self, span: Span, x: &TyBasic, args: &Vec<Spanned<Arg>>) -> (r:
        Result<Ty, TypingError>)
        requires
            wf_oracle(&self.oracle),
            wf_basic(x@),
        ensures
            match r {
                Result::Ok(t) => validate_call_basic_v(&self.oracle, x@, args_v(args@), span)
                    == Result::<TyV, TypingErrorV>::Ok(t@) && wf_ty(t@),
                Result::Err(e) => validate_call_basic_v(&self.oracle, x@, args_v(args@), span)
                    == Result::<TyV, TypingErrorV>::Err(e@),
            },
    {
        match x {
            TyBasic::Any => Result::Ok(Ty::any()),
            TyBasic::Iter(_) => Result::Ok(Ty::any()),
            TyBasic::Custom(TyCustom::Function(f)) => self.validate_fn_call(span, f, args),
            TyBasic::Name(n) => {
                proof {
                    lemma_callable_lookup_wf(&self.oracle, 0, n@);
                }
                match self.callable_fact(n) {
                    Option::None => Result::Ok(Ty::any()),
                    Option::Some(Option::Some(f)) => self.validate_fn_call(span, f, args),
                    Option::Some(Option::None) => {
                        let t = Ty::basic(x.clone());
                        proof {
                            assert(t@ =~= (TyV { alts: seq![x@] }));
                        }
                        Result::Err(
                            TypingError::new(span, TypingErrorKind::CallToNonCallable { ty: t }),
                        )
                    },
                }
            },
            _ => {
                let t = Ty::basic(x.clone());
                proof {
                    assert(t@ =~= (TyV { alts: seq![x@] }));
                }
                Result::Err(TypingError::new(span, TypingErrorKind::CallToNonCallable { ty: t }))
            },
        }
    }

    /// Look up a callability fact for the named type.
    fn callable_fact(&self, name: &String) -> (r: Option<Option<&TyFunction>>)
        ensures
            match r {
                Option::None => callable_lookup_v(self.oracle.callables@, 0, name@) is None,
                Option::Some(Option::None) => callable_lookup_v(self.oracle.callables@, 0, name@)
                    matches Option::Some(s) && s is None,
                Option::Some(Option::Some(f)) => callable_lookup_v(
                    self.oracle.callables@,
                    0,
                    name@,
                ) matches Option::Some(s) && s matches Option::Some(g) && g == *f,
            },
    {
        let n = self.oracle.callables.len();
        for i in 0..n
            invariant
                n == self.oracle.callables@.len(),
                callable_lookup_v(self.oracle.callables@, i as int, name@) == callable_lookup_v(
                    self.oracle.callables@,
                    0,
                    name@,
                ),
        {
            let row = &self.oracle.callables[i];
            if row.ty_name == *name {
                match &row.signature {
                    Option::Some(f) => {
                        return Option::Some(Option::Some(f));
                    },
                    Option::None => {
                        return Option::Some(Option::None);
                    },
                }
            }
        }
        Option::None
    }
}

/// Ghost mirror of a list of diagnostics.
pub open spec fn errs_v(s: Seq<TypingError>) -> Seq<TypingErrorV> {
    Seq::new(s.len(), |i: int| s[i]@)
}

/// A found callability fact holds a well-formed signature when the table is
/// well-formed.
pub proof fn lemma_callable_lookup_wf(o: &TypingOracle, i: int, name: Seq<char>)
    requires
        wf_oracle(o),
        0 <= i,
    ensures
        match callable_lookup_v(o.callables@, i, name) {
            Option::Some(Option::Some(f)) => wf_sig(fun_v(f)),
            _ => true,
        },
    decreases o.callables@.len() - i,
{
    if i < o.callables@.len() {
        lemma_callable_lookup_wf(o, i + 1, name);
    }
}

// ---------------------------------------------------------------------------
// Laws.
// ---------------------------------------------------------------------------

/// Case-analysis forgiveness: if at least one alternative of the called
/// union accepts the call, the whole call is accepted, whatever errors the
/// other alternatives produced.
pub proof fn lemma_call_forgiveness(
    o: &TypingOracle,
    fun: TyV,
    args: Seq<(Span, ArgV)>,
    span: Span,
    i: int,
)
    requires
        0 <= i < fun.alts.len(),
        validate_call_basic_v(o, fun.alts[i], args, span) is Ok,
    ensures
        validate_call_v(o, fun, args, span) is Ok,
{
    lemma_call_scan_good(o, fun.alts, args, span, 0, Seq::empty(), Seq::empty(), i);
}

/// The scan keeps every success it has seen.
proof fn lemma_call_scan_good(
    o: &TypingOracle,
    alts: Seq<TyBasicV>,
    args: Seq<(Span, ArgV)>,
    span: Span,
    j: int,
    good: Seq<TyV>,
    errs: Seq<TypingErrorV>,
    i: int,
)
    requires
        0 <= j <= i < alts.len(),
        validate_call_basic_v(o, alts[i], args, span) is Ok,
    ensures
        call_scan_v(o, alts, args, span, j, good, errs).0.len() > 0,
    decreases alts.len() - j,
{
    if j < i {
        match validate_call_basic_v(o, alts[j], args, span) {
            Result::Ok(t) => lemma_call_scan_good(o, alts, args, span, j + 1, good.push(t), errs, i),
            Result::Err(e) => lemma_call_scan_good(o, alts, args, span, j + 1, good, errs.push(e), i),
        }
    } else {
        match validate_call_basic_v(o, alts[i], args, span) {
            Result::Ok(t) => {
                lemma_call_scan_len(o, alts, args, span, i + 1, good.push(t), errs);
            },
            Result::Err(_) => {},
        }
    }
}

/// The scan never drops accumulated successes.
proof fn lemma_call_scan_len(
    o: &TypingOracle,
    alts: Seq<TyBasicV>,
    args: Seq<(Span, ArgV)>,
    span: Span,
    j: int,
    good: Seq<TyV>,
    errs: Seq<TypingErrorV>,
)
    ensures
        call_scan_v(o, alts, args, span, j, good, errs).0.len() >= good.len(),
    decreases alts.len() - j,
{
    if 0 <= j < alts.len() {
        match validate_call_basic_v(o, alts[j], args, span) {
            Result::Ok(t) => lemma_call_scan_len(o, alts, args, span, j + 1, good.push(t), errs),
            Result::Err(e) => lemma_call_scan_len(o, alts, args, span, j + 1, good, errs.push(e)),
        }
    }
}

/// The forgiveness rule for attribute resolution: one alternative resolving
/// the attribute is enough, whatever the others refused.
pub proof fn lemma_attr_forgiveness(
    o: &TypingOracle,
    t: TyV,
    attr: <TypingAttr as View>::V,
    i: int,
)
    requires
        0 <= i < t.alts.len(),
        resolve_attr_v(o, t.alts[i], attr) is Some,
    ensures
        attribute_ty_v(o, t, attr) is Some,
{
    lemma_attr_scan_good(o, t.alts, attr, 0, Seq::empty(), false, i);
}

/// The attribute scan keeps every success it has seen.
proof fn lemma_attr_scan_good(
    o: &TypingOracle,
    alts: Seq<TyBasicV>,
    attr: <TypingAttr as View>::V,
    j: int,
    acc: Seq<TyV>,
    errsf: bool,
    i: int,
)
    requires
        0 <= j <= i < alts.len(),
        resolve_attr_v(o, alts[i], attr) is Some,
    ensures
        attr_scan_v(o, alts, attr, j, acc, errsf).0.len() > 0,
    decreases alts.len() - j,
{
    if j < i {
        match resolve_attr_v(o, alts[j], attr) {
            Option::Some(t) => lemma_attr_scan_good(o, alts, attr, j + 1, acc.push(t), errsf, i),
            Option::None => lemma_attr_scan_good(o, alts, attr, j + 1, acc, true, i),
        }
    } else {
        match resolve_attr_v(o, alts[i], attr) {
            Option::Some(t) => {
                lemma_attr_scan_len(o, alts, attr, i + 1, acc.push(t), errsf);
            },
            Option::None => {},
        }
    }
}

/// The attribute scan never drops accumulated successes.
proof fn lemma_attr_scan_len(
    o: &TypingOracle,
    alts: Seq<TyBasicV>,
    attr: <TypingAttr as View>::V,
    j: int,
    acc: Seq<TyV>,
    errsf: bool,
)
    ensures
        attr_scan_v(o, alts, attr, j, acc, errsf).0.len() >= acc.len(),
    decreases alts.len() - j,
{
    if 0 <= j < alts.len() {
        match resolve_attr_v(o, alts[j], attr) {
            Option::Some(t) => lemma_attr_scan_len(o, alts, attr, j + 1, acc.push(t), errsf),
            Option::None => lemma_attr_scan_len(o, alts, attr, j + 1, acc, true),
        }
    }
}

/// The argument check succeeds exactly when every required parameter is
/// satisfied: a parameter with no assigned argument must be optional or
/// excused by a spread, and every assigned argument must intersect the type
/// its parameter requires.
pub proof fn lemma_check_params_iff(
    o: &TypingOracle,
    params: Seq<ParamV>,
    collected: Seq<Seq<(Span, TyV)>>,
    seen_vargs: bool,
    span: Span,
    j: int,
)
    requires
        0 <= j,
        collected.len() == params.len(),
    ensures
        (check_params_v(o, params, collected, seen_vargs, span, j) is Good) <==> (forall|p: int|
            j <= p < params.len() ==> param_satisfied(o, params[p], #[trigger] collected[p], seen_vargs)),
    decreases params.len() - j,
{
    if j < params.len() {
        lemma_check_params_iff(o, params, collected, seen_vargs, span, j + 1);
        if collected[j].len() > 0 {
            match param_require_v(params[j]) {
                Option::Some(req) => {
                    lemma_first_incompat_iff(o, req, collected[j], 0);
                },
                Option::None => {},
            }
        }
    }
}

/// Whether one parameter is satisfied by its assigned arguments.
pub open spec fn param_satisfied(
    o: &TypingOracle,
    p: ParamV,
    coll: Seq<(Span, TyV)>,
    seen_vargs: bool,
) -> bool {
    if coll.len() == 0 {
        p.optional || seen_vargs
    } else {
        match param_require_v(p) {
            Option::None => true,
            Option::Some(req) => forall|k: int|
                0 <= k < coll.len() ==> intersects_v(o, (#[trigger] coll[k]).1, req),
        }
    }
}

/// The incompatibility scan finds nothing exactly when every assigned
/// argument intersects the required type.
proof fn lemma_first_incompat_iff(o: &TypingOracle, req: TyV, coll: Seq<(Span, TyV)>, k: int)
    requires
        0 <= k,
    ensures
        (first_incompat_v(o, req, coll, k) is None) <==> (forall|z: int|
            k <= z < coll.len() ==> intersects_v(o, (#[trigger] coll[z]).1, req)),
    decreases coll.len() - k,
{
    if k < coll.len() {
        lemma_first_incompat_iff(o, req, coll, k + 1);
    }
}


// ---------------------------------------------------------------------------
// Global names and the concrete types' operator tables.
// ---------------------------------------------------------------------------

/// The documented global scope: what each global name is.
pub struct OracleDocs {
    /// Name and type of each global.
    pub globals: Vec<(String, Ty)>,
}

/// The first global fact for `name` from row `i` on.
pub open spec fn global_lookup_v(rows: Seq<(String, Ty)>, i: int, name: Seq<char>) -> Option<TyV>
    decreases rows.len() - i,
{
    if i < 0 || i >= rows.len() {
        Option::None
    } else if rows[i].0@ == name {
        Option::Some(ty_v(rows[i].1))
    } else {
        global_lookup_v(rows, i + 1, name)
    }
}

/// Well-formedness of the global table: every stored type in normal form,
/// and one row per name — the invariant of a name-keyed map.
pub open spec fn wf_docs(d: &OracleDocs) -> bool {
    &&& (forall|i: int| 0 <= i < d.globals@.len() ==> wf_ty(ty_v((#[trigger] d.globals@[i]).1)))
    &&& (forall|i: int, j: int|
        0 <= i < j < d.globals@.len() ==> (#[trigger] d.globals@[i]).0@ != (
        #[trigger] d.globals@[j]).0@)
}

impl OracleDocs {
    /// An empty global scope.
    pub fn empty() -> (r: OracleDocs)
        ensures
            r.globals@.len() == 0,
            wf_docs(&r),
    {
        OracleDocs { globals: Vec::new() }
    }

    /// Record a global name and its type; the name must be new.
    pub fn add(&mut self, name: String, ty: Ty)
        requires
            wf_ty(ty@),
            wf_docs(&*old(self)),
            global_lookup_v(old(self).globals@, 0, name@) is None,
        ensures
            wf_docs(&*final(self)),
            final(self).globals@ == old(self).globals@.push((name, ty)),
    {
        let ghost before = self.globals@;
        let ghost nv = name@;
        self.globals.push((name, ty));
        proof {
            lemma_global_absent(before, 0, nv);
            assert forall|i: int|
                0 <= i < self.globals@.len() implies wf_ty(ty_v((#[trigger] self.globals@[i]).1)) by {
                if i < before.len() {
                    assert(self.globals@[i] == before[i]);
                }
            }
            assert forall|i: int, j: int|
                0 <= i < j < self.globals@.len() implies (#[trigger] self.globals@[i]).0@ != (
                #[trigger] self.globals@[j]).0@ by {
                if j < before.len() {
                    assert(self.globals@[i] == before[i] && self.globals@[j] == before[j]);
                } else {
                    assert(self.globals@[i] == before[i]);
                }
            }
        }
    }

    /// The type of a global name, or an error where it is unknown.
    pub fn builtin(&self, name: &String) -> (r: Result<Ty, ()>)
        requires
            wf_docs(self),
        ensures
            match r {
                Result::Ok(t) => global_lookup_v(self.globals@, 0, name@) == Option::Some(t@)
                    && wf_ty(t@),
                Result::Err(()) => global_lookup_v(self.globals@, 0, name@) is None,
            },
    {
        let n = self.globals.len();
        for i in 0..n
            invariant
                n == self.globals@.len(),
                wf_docs(self),
                global_lookup_v(self.globals@, i as int, name@) == global_lookup_v(
                    self.globals@,
                    0,
                    name@,
                ),
        {
            if self.globals[i].0 == *name {
                let t = self.globals[i].1.clone();
                return Result::Ok(t);
            }
        }
        Result::Err(())
    }
}

/// A name the lookup misses appears in no row.
pub proof fn lemma_global_absent(rows: Seq<(String, Ty)>, i: int, name: Seq<char>)
    requires
        0 <= i,
        global_lookup_v(rows, i, name) is None,
    ensures
        forall|j: int| i <= j < rows.len() ==> (#[trigger] rows[j]).0@ != name,
    decreases rows.len() - i,
{
    if i < rows.len() {
        lemma_global_absent(rows, i + 1, name);
    }
}

/// The first binary-operator rule for `(name, op)` whose right operand
/// accepts `rhs`, from row `i` on.
pub open spec fn bin_op_lookup_v(
    o: &TypingOracle,
    rows: Seq<BinOpRule>,
    i: int,
    name: Seq<char>,
    op: TypingBinOp,
    rhs: TyBasicV,
) -> Option<TyV>
    decreases rows.len() - i,
{
    if i < 0 || i >= rows.len() {
        Option::None
    } else if rows[i].ty_name@ == name && rows[i].op == op && intersects_v(
        o,
        TyV { alts: seq![rhs] },
        ty_v(rows[i].rhs),
    ) {
        Option::Some(ty_v(rows[i].result))
    } else {
        bin_op_lookup_v(o, rows, i + 1, name, op, rhs)
    }
}

/// A found binary-operator rule has a well-formed result when the table is
/// well-formed.
pub proof fn lemma_bin_op_lookup_wf(
    o: &TypingOracle,
    i: int,
    name: Seq<char>,
    op: TypingBinOp,
    rhs: TyBasicV,
)
    requires
        wf_oracle(o),
        0 <= i,
    ensures
        match bin_op_lookup_v(o, o.bin_ops@, i, name, op, rhs) {
            Option::Some(t) => wf_ty(t),
            Option::None => true,
        },
    decreases o.bin_ops@.len() - i,
{
    if i < o.bin_ops@.len() {
        lemma_bin_op_lookup_wf(o, i + 1, name, op, rhs);
    }
}

impl crate::ty::TyStarlarkValue {
    /// The result of a unary operator on this concrete type, by its
    /// capability flags.
    pub fn un_op(&self, op: crate::ops::TypingUnOp) -> (r: Result<crate::ty::TyStarlarkValue, ()>)
        ensures
            match r {
                Result::Ok(sv) => sv@ == self@ && match op {
                    crate::ops::TypingUnOp::Plus => self@.has_plus,
                    crate::ops::TypingUnOp::Minus => self@.has_minus,
                    crate::ops::TypingUnOp::BitNot => self@.has_bit_not,
                },
                Result::Err(()) => !(match op {
                    crate::ops::TypingUnOp::Plus => self@.has_plus,
                    crate::ops::TypingUnOp::Minus => self@.has_minus,
                    crate::ops::TypingUnOp::BitNot => self@.has_bit_not,
                }),
            },
    {
        let has = match op {
            crate::ops::TypingUnOp::Plus => self.has_plus,
            crate::ops::TypingUnOp::Minus => self.has_minus,
            crate::ops::TypingUnOp::BitNot => self.has_bit_not,
        };
        if has {
            Result::Ok(self.clone())
        } else {
            Result::Err(())
        }
    }

    /// The result of a binary operator on this concrete type: the first of
    /// the oracle's operator rules for this type name whose right operand
    /// accepts `rhs`.
    pub fn bin_op(
        &self,
        ctx: &TypingOracleCtx,
        op: TypingBinOp,
        rhs: &TyBasic,
    ) -> (r: Result<Ty, ()>)
        requires
            wf_oracle(&ctx.oracle),
            wf_basic(rhs@),
        ensures
            match r {
                Result::Ok(t) => bin_op_lookup_v(
                    &ctx.oracle,
                    ctx.oracle.bin_ops@,
                    0,
                    self@.name,
                    op,
                    rhs@,
                ) == Option::Some(t@) && wf_ty(t@),
                Result::Err(()) => bin_op_lookup_v(
                    &ctx.oracle,
                    ctx.oracle.bin_ops@,
                    0,
                    self@.name,
                    op,
                    rhs@,
                ) is None,
            },
    {
        proof {
            lemma_bin_op_lookup_wf(&ctx.oracle, 0, self@.name, op, rhs@);
        }
        let n = ctx.oracle.bin_ops.len();
        for i in 0..n
            invariant
                n == ctx.oracle.bin_ops@.len(),
                wf_oracle(&ctx.oracle),
                wf_basic(rhs@),
                bin_op_lookup_v(&ctx.oracle, ctx.oracle.bin_ops@, i as int, self@.name, op, rhs@)
                    == bin_op_lookup_v(&ctx.oracle, ctx.oracle.bin_ops@, 0, self@.name, op, rhs@),
        {
            let row = &ctx.oracle.bin_ops[i];
            if row.ty_name == self.name && row.op == op {
                let probe = Ty::basic(rhs.clone());
                if ctx.intersects(&probe, &row.rhs) {
                    proof {
                        assert(probe@ =~= (TyV { alts: seq![rhs@] }));
                        lemma_bin_op_lookup_wf(&ctx.oracle, 0, self@.name, op, rhs@);
                    }
                    let t = row.result.clone();
                    return Result::Ok(t);
                }
                proof {
                    assert(probe@ =~= (TyV { alts: seq![rhs@] }));
                }
            }
        }
        Result::Err(())
    }

    /// The type of a regular attribute on this concrete type, from the
    /// oracle's attribute facts: the first fact for this type name and the
    /// attribute's name decides; no fact means unavailable.
    pub fn attr(&self, ctx: &TypingOracleCtx, name: &String) -> (r: Result<Ty, ()>)
        requires
            wf_oracle(&ctx.oracle),
        ensures
            match r {
                Result::Ok(t) => attr_lookup_v(
                    ctx.oracle.attrs@,
                    0,
                    self@.name,
                    TypingAttrV::Regular(name@),
                ) == Option::Some(Option::Some(t@)) && wf_ty(t@),
                Result::Err(()) => match attr_lookup_v(
                    ctx.oracle.attrs@,
                    0,
                    self@.name,
                    TypingAttrV::Regular(name@),
                ) {
                    Option::Some(a) => a is None,
                    Option::None => true,
                },
            },
    {
        proof {
            lemma_attr_lookup_wf(&ctx.oracle, 0, self@.name, TypingAttrV::Regular(name@));
        }
        let attr = TypingAttr::Regular(name.clone());
        match ctx.oracle.attr_fact(&self.name, &attr) {
            Option::Some(Option::Some(t)) => Result::Ok(t.clone()),
            _ => Result::Err(()),
        }
    }
}

} // verus!
