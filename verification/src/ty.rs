//! The type algebra: `Ty` as a union of `TyBasic` variants.
//!
//! A `Ty` is semantically a set of alternatives. The empty union is `Never`
//! (bottom: no value can have this type); the union holding the single
//! variant `Any` is the unconstrained top. The normal form kept by every
//! constructor and by [`Ty::union2`] is:
//! - `Any` appears only as the sole variant;
//! - no two variants are equal;
//! - at most one `List` and at most one `Dict` variant (their element types
//!   are merged instead of listing two variants).
//!
//! Ghost mirrors (`TyV`, `TyBasicV`, ...) are mathematical copies of the
//! executable types; every contract speaks of them through `@`.

use vstd::prelude::*;

use crate::ops::TypingBinOp;

verus! {

// ---------------------------------------------------------------------------
// Ghost mirrors.
// ---------------------------------------------------------------------------

/// Ghost mirror of [`Ty`]: a union as a sequence of alternatives.
#[verifier::ext_equal]
pub struct TyV {
    /// The alternatives of the union; empty means `Never`.
    pub alts: Seq<TyBasicV>,
}

/// Ghost mirror of [`TyBasic`].
#[verifier::ext_equal]
pub enum TyBasicV {
    /// Anything; compatible with everything.
    Any,
    /// An opaque named type.
    Name(Seq<char>),
    /// A concrete runtime type, by its descriptor.
    StarlarkValue(TyStarlarkValueV),
    /// A homogeneous list.
    List(TyV),
    /// A dictionary with key and value types.
    Dict(TyV, TyV),
    /// A fixed-arity tuple.
    Tuple(Seq<TyV>),
    /// Something that can be iterated, yielding the element type.
    Iter(TyV),
    /// An extension type carrying its own typing behaviour.
    Custom(TyCustomV),
}

/// Ghost mirror of [`TyCustom`].
#[verifier::ext_equal]
pub enum TyCustomV {
    /// A callable with a known signature.
    Function(TyFunctionV),
}

/// Ghost mirror of [`TyFunction`].
#[verifier::ext_equal]
pub struct TyFunctionV {
    /// Parameters, in declaration order.
    pub params: Seq<ParamV>,
    /// The declared result type.
    pub result: TyV,
}

/// Ghost mirror of [`Param`].
#[verifier::ext_equal]
pub struct ParamV {
    /// How the parameter may be passed.
    pub mode: ParamModeV,
    /// Whether the parameter may be omitted.
    pub optional: bool,
    /// The declared type of the parameter.
    pub ty: TyV,
}

/// Ghost mirror of [`ParamMode`].
#[verifier::ext_equal]
pub enum ParamModeV {
    /// Positional only.
    PosOnly,
    /// Positional or named.
    PosOrName(Seq<char>),
    /// Named only.
    NameOnly(Seq<char>),
    /// `*args`.
    Args,
    /// `**kwargs`.
    Kwargs,
}

/// Ghost mirror of [`TyStarlarkValue`].
#[verifier::ext_equal]
pub struct TyStarlarkValueV {
    /// The runtime type name.
    pub name: Seq<char>,
    /// Unary `+` is available.
    pub has_plus: bool,
    /// Unary `-` is available.
    pub has_minus: bool,
    /// Unary `~` is available.
    pub has_bit_not: bool,
}

// ---------------------------------------------------------------------------
// Executable types.
// ---------------------------------------------------------------------------

/// How a function parameter may be passed.
#[derive(Debug)]
pub enum ParamMode {
    /// Positional only.
    PosOnly,
    /// Positional or named, with its name.
    PosOrName(String),
    /// Named only, with its name.
    NameOnly(String),
    /// `*args`.
    Args,
    /// `**kwargs`.
    Kwargs,
}

/// One declared parameter of a callable.
#[derive(Debug)]
pub struct Param {
    /// How the parameter may be passed.
    pub mode: ParamMode,
    /// Whether the parameter has a default or may otherwise be omitted.
    pub optional: bool,
    /// The declared type.
    pub ty: Ty,
}

/// The signature of a callable.
#[derive(Debug)]
pub struct TyFunction {
    /// Parameters, in declaration order.
    pub params: Vec<Param>,
    /// The declared result type.
    pub result: Box<Ty>,
}

/// An extension type: a value shape beyond the closed builtin set, carrying
/// its own typing behaviour. Callables with a known signature are the one
/// extension this checker ships.
#[derive(Debug)]
pub enum TyCustom {
    /// A callable with a known signature.
    Function(TyFunction),
}

/// Descriptor of one concrete runtime type: its name and the capability
/// flags for the closed set of unary operators. Everything else about the
/// type (attributes, binary operators, callability) is the oracle's to
/// answer, keyed by this name.
#[derive(Debug)]
pub struct TyStarlarkValue {
    /// The runtime type name, e.g. `"int"`.
    pub name: String,
    /// Unary `+` is available.
    pub has_plus: bool,
    /// Unary `-` is available.
    pub has_minus: bool,
    /// Unary `~` is available.
    pub has_bit_not: bool,
}

/// A single non-union type shape.
#[derive(Debug)]
pub enum TyBasic {
    /// Anything; compatible with everything.
    Any,
    /// An opaque named type.
    Name(String),
    /// A concrete runtime type, by its descriptor.
    StarlarkValue(TyStarlarkValue),
    /// A homogeneous list.
    List(Box<Ty>),
    /// A dictionary with key and value types.
    Dict(Box<Ty>, Box<Ty>),
    /// A fixed-arity tuple.
    Tuple(Vec<Ty>),
    /// Something that can be iterated, yielding the element type.
    Iter(Box<Ty>),
    /// An extension type.
    Custom(TyCustom),
}

/// A type: a union of basic alternatives. Empty means `Never`.
#[derive(Debug)]
pub struct Ty {
    /// The alternatives of the union.
    pub alternatives: Vec<TyBasic>,
}

// ---------------------------------------------------------------------------
// Views.
// ---------------------------------------------------------------------------

/// Ghost mirror of a [`Ty`] value.
pub open spec fn ty_v(t: Ty) -> TyV
    decreases t, 2int,
{
    TyV { alts: alts_v(t.alternatives@, 0, Seq::empty()) }
}

/// Ghost mirror of a sequence of alternatives, from index `i` on, appended
/// to `acc`.
pub open spec fn alts_v(s: Seq<TyBasic>, i: int, acc: Seq<TyBasicV>) -> Seq<TyBasicV>
    decreases s, s.len() - i,
{
    if i < 0 || i >= s.len() {
        acc
    } else {
        alts_v(s, i + 1, acc.push(basic_v(s[i])))
    }
}

/// Ghost mirror of a [`TyBasic`] value.
pub open spec fn basic_v(b: TyBasic) -> TyBasicV
    decreases b, 2int,
{
    match b {
        TyBasic::Any => TyBasicV::Any,
        TyBasic::Name(n) => TyBasicV::Name(n@),
        TyBasic::StarlarkValue(sv) => TyBasicV::StarlarkValue(TyStarlarkValueV {
            name: sv.name@,
            has_plus: sv.has_plus,
            has_minus: sv.has_minus,
            has_bit_not: sv.has_bit_not,
        }),
        TyBasic::List(t) => TyBasicV::List(ty_v(*t)),
        TyBasic::Dict(k, v) => TyBasicV::Dict(ty_v(*k), ty_v(*v)),
        TyBasic::Tuple(ts) => TyBasicV::Tuple(tys_v(ts@, 0, Seq::empty())),
        TyBasic::Iter(t) => TyBasicV::Iter(ty_v(*t)),
        TyBasic::Custom(c) => TyBasicV::Custom(custom_v(c)),
    }
}

/// Ghost mirror of a sequence of types, from index `i` on, appended to `acc`.
pub open spec fn tys_v(s: Seq<Ty>, i: int, acc: Seq<TyV>) -> Seq<TyV>
    decreases s, s.len() - i,
{
    if i < 0 || i >= s.len() {
        acc
    } else {
        tys_v(s, i + 1, acc.push(ty_v(s[i])))
    }
}

/// Ghost mirror of a [`TyCustom`] value.
pub open spec fn custom_v(c: TyCustom) -> TyCustomV
    decreases c, 2int,
{
    match c {
        TyCustom::Function(f) => TyCustomV::Function(fun_v(f)),
    }
}

/// Ghost mirror of a [`TyFunction`] value.
pub open spec fn fun_v(f: TyFunction) -> TyFunctionV
    decreases f, 2int,
{
    TyFunctionV { params: params_v(f.params@, 0, Seq::empty()), result: ty_v(*f.result) }
}

/// Ghost mirror of a sequence of parameters, from index `i` on.
pub open spec fn params_v(s: Seq<Param>, i: int, acc: Seq<ParamV>) -> Seq<ParamV>
    decreases s, s.len() - i,
{
    if i < 0 || i >= s.len() {
        acc
    } else {
        params_v(s, i + 1, acc.push(param_v(s[i])))
    }
}

/// Ghost mirror of a [`Param`] value.
pub open spec fn param_v(p: Param) -> ParamV
    decreases p, 2int,
{
    ParamV { mode: param_mode_v(p.mode), optional: p.optional, ty: ty_v(p.ty) }
}

/// Ghost mirror of a [`ParamMode`] value.
pub open spec fn param_mode_v(m: ParamMode) -> ParamModeV {
    match m {
        ParamMode::PosOnly => ParamModeV::PosOnly,
        ParamMode::PosOrName(n) => ParamModeV::PosOrName(n@),
        ParamMode::NameOnly(n) => ParamModeV::NameOnly(n@),
        ParamMode::Args => ParamModeV::Args,
        ParamMode::Kwargs => ParamModeV::Kwargs,
    }
}

impl View for Ty {
    type V = TyV;

    open spec fn view(&self) -> TyV {
        ty_v(*self)
    }
}

impl View for TyBasic {
    type V = TyBasicV;

    open spec fn view(&self) -> TyBasicV {
        basic_v(*self)
    }
}

impl View for TyCustom {
    type V = TyCustomV;

    open spec fn view(&self) -> TyCustomV {
        custom_v(*self)
    }
}

impl View for TyFunction {
    type V = TyFunctionV;

    open spec fn view(&self) -> TyFunctionV {
        fun_v(*self)
    }
}

impl View for Param {
    type V = ParamV;

    open spec fn view(&self) -> ParamV {
        param_v(*self)
    }
}

impl View for ParamMode {
    type V = ParamModeV;

    open spec fn view(&self) -> ParamModeV {
        param_mode_v(*self)
    }
}

impl View for TyStarlarkValue {
    type V = TyStarlarkValueV;

    open spec fn view(&self) -> TyStarlarkValueV {
        TyStarlarkValueV {
            name: self.name@,
            has_plus: self.has_plus,
            has_minus: self.has_minus,
            has_bit_not: self.has_bit_not,
        }
    }
}

/// The mirror of `s` is the element-wise mirror, with the stated length.
pub proof fn lemma_alts_v(s: Seq<TyBasic>, i: int, acc: Seq<TyBasicV>)
    requires
        0 <= i <= s.len(),
    ensures
        alts_v(s, i, acc).len() == acc.len() + s.len() - i,
        forall|j: int| 0 <= j < acc.len() ==> alts_v(s, i, acc)[j] == acc[j],
        forall|j: int|
            i <= j < s.len() ==> alts_v(s, i, acc)[acc.len() + j - i] == basic_v(s[j]),
    decreases s.len() - i,
{
    if i < s.len() {
        let acc2 = acc.push(basic_v(s[i]));
        lemma_alts_v(s, i + 1, acc2);
        assert(alts_v(s, i, acc) == alts_v(s, i + 1, acc2));
        assert forall|j: int| 0 <= j < acc.len() implies alts_v(s, i, acc)[j] == acc[j] by {
            assert(alts_v(s, i + 1, acc2)[j] == acc2[j]);
        }
        assert forall|j: int|
            i <= j < s.len() implies alts_v(s, i, acc)[acc.len() + j - i] == basic_v(s[j]) by {
            if j == i {
                assert(alts_v(s, i + 1, acc2)[j + 1 - 1 - i + acc.len()] == acc2[acc.len() as int]);
            } else {
                assert(alts_v(s, i + 1, acc2)[acc2.len() + j - i - 1] == basic_v(s[j]));
            }
        }
    } else {
        assert(alts_v(s, i, acc) == acc);
    }
}

/// The mirror of `s` is the element-wise mirror, with the stated length.
pub proof fn lemma_tys_v(s: Seq<Ty>, i: int, acc: Seq<TyV>)
    requires
        0 <= i <= s.len(),
    ensures
        tys_v(s, i, acc).len() == acc.len() + s.len() - i,
        forall|j: int| 0 <= j < acc.len() ==> tys_v(s, i, acc)[j] == acc[j],
        forall|j: int| i <= j < s.len() ==> tys_v(s, i, acc)[acc.len() + j - i] == ty_v(s[j]),
    decreases s.len() - i,
{
    if i < s.len() {
        let acc2 = acc.push(ty_v(s[i]));
        lemma_tys_v(s, i + 1, acc2);
        assert(tys_v(s, i, acc) == tys_v(s, i + 1, acc2));
        assert forall|j: int| 0 <= j < acc.len() implies tys_v(s, i, acc)[j] == acc[j] by {
            assert(tys_v(s, i + 1, acc2)[j] == acc2[j]);
        }
        assert forall|j: int|
            i <= j < s.len() implies tys_v(s, i, acc)[acc.len() + j - i] == ty_v(s[j]) by {
            if j == i {
                assert(tys_v(s, i + 1, acc2)[j + 1 - 1 - i + acc.len()] == acc2[acc.len() as int]);
            } else {
                assert(tys_v(s, i + 1, acc2)[acc2.len() + j - i - 1] == ty_v(s[j]));
            }
        }
    } else {
        assert(tys_v(s, i, acc) == acc);
    }
}

/// The mirror of `s` is the element-wise mirror, with the stated length.
pub proof fn lemma_params_v(s: Seq<Param>, i: int, acc: Seq<ParamV>)
    requires
        0 <= i <= s.len(),
    ensures
        params_v(s, i, acc).len() == acc.len() + s.len() - i,
        forall|j: int| 0 <= j < acc.len() ==> params_v(s, i, acc)[j] == acc[j],
        forall|j: int|
            i <= j < s.len() ==> params_v(s, i, acc)[acc.len() + j - i] == param_v(s[j]),
    decreases s.len() - i,
{
    if i < s.len() {
        let acc2 = acc.push(param_v(s[i]));
        lemma_params_v(s, i + 1, acc2);
        assert(params_v(s, i, acc) == params_v(s, i + 1, acc2));
        assert forall|j: int| 0 <= j < acc.len() implies params_v(s, i, acc)[j] == acc[j] by {
            assert(params_v(s, i + 1, acc2)[j] == acc2[j]);
        }
        assert forall|j: int|
            i <= j < s.len() implies params_v(s, i, acc)[acc.len() + j - i] == param_v(s[j]) by {
            if j == i {
                assert(params_v(s, i + 1, acc2)[j + 1 - 1 - i + acc.len()] == acc2[acc.len() as int]);
            } else {
                assert(params_v(s, i + 1, acc2)[acc2.len() + j - i - 1] == param_v(s[j]));
            }
        }
    } else {
        assert(params_v(s, i, acc) == acc);
    }
}

/// The mirror of a whole sequence of types, element-wise.
pub open spec fn tyseq_v(s: Seq<Ty>) -> Seq<TyV> {
    Seq::new(s.len(), |i: int| ty_v(s[i]))
}

// ---------------------------------------------------------------------------
// The shape of a type, at the ghost level.
// ---------------------------------------------------------------------------

/// The unconstrained type: the union holding `Any` alone.
pub open spec fn any_v() -> TyV {
    TyV { alts: seq![TyBasicV::Any] }
}

/// The bottom type: the empty union.
pub open spec fn never_v() -> TyV {
    TyV { alts: Seq::empty() }
}

impl TyV {
    /// Whether this is the unconstrained type.
    pub open spec fn is_any(self) -> bool {
        self.alts.len() == 1 && self.alts[0] is Any
    }

    /// Whether this is the bottom type.
    pub open spec fn is_never(self) -> bool {
        self.alts.len() == 0
    }

    /// Whether some alternative is a list.
    pub open spec fn has_list(self) -> bool {
        exists|i: int| 0 <= i < self.alts.len() && self.alts[i] is List
    }

    /// Whether some alternative is a dictionary.
    pub open spec fn has_dict(self) -> bool {
        exists|i: int| 0 <= i < self.alts.len() && self.alts[i] is Dict
    }

    /// The index of the list alternative, where one exists.
    pub open spec fn list_at(self) -> int {
        choose|i: int| 0 <= i < self.alts.len() && self.alts[i] is List
    }

    /// The element type of the list alternative, where one exists.
    pub open spec fn list_elem(self) -> TyV {
        match self.alts[self.list_at()] {
            TyBasicV::List(e) => e,
            _ => never_v(),
        }
    }

    /// The index of the dictionary alternative, where one exists.
    pub open spec fn dict_at(self) -> int {
        choose|i: int| 0 <= i < self.alts.len() && self.alts[i] is Dict
    }

    /// The key type of the dictionary alternative, where one exists.
    pub open spec fn dict_key(self) -> TyV {
        match self.alts[self.dict_at()] {
            TyBasicV::Dict(k, _) => k,
            _ => never_v(),
        }
    }

    /// The value type of the dictionary alternative, where one exists.
    pub open spec fn dict_val(self) -> TyV {
        match self.alts[self.dict_at()] {
            TyBasicV::Dict(_, v) => v,
            _ => never_v(),
        }
    }
}

// ---------------------------------------------------------------------------
// Normal form.
// ---------------------------------------------------------------------------

/// The normal form of a union: every alternative well-formed, `Any` only
/// alone, no duplicate alternatives, and at most one list and one dictionary
/// alternative.
pub open spec fn wf_ty(t: TyV) -> bool
    decreases t, 3int,
{
    &&& wf_alts(t.alts, 0)
    &&& (t.alts.len() == 1 || forall|i: int| 0 <= i < t.alts.len() ==> !(#[trigger] t.alts[i] is Any))
    &&& (forall|i: int, j: int|
        0 <= i < j < t.alts.len() ==> #[trigger] t.alts[i] != #[trigger] t.alts[j])
    &&& (forall|i: int, j: int|
        0 <= i < j < t.alts.len() ==> !(#[trigger] t.alts[i] is List && #[trigger] t.alts[j] is List))
    &&& (forall|i: int, j: int|
        0 <= i < j < t.alts.len() ==> !(#[trigger] t.alts[i] is Dict && #[trigger] t.alts[j] is Dict))
}

/// All alternatives from index `i` on are well-formed.
pub open spec fn wf_alts(s: Seq<TyBasicV>, i: int) -> bool
    decreases s, s.len() - i,
{
    i < 0 || i >= s.len() || (wf_basic(s[i]) && wf_alts(s, i + 1))
}

/// A well-formed alternative: its component types are well-formed.
pub open spec fn wf_basic(b: TyBasicV) -> bool
    decreases b, 3int,
{
    match b {
        TyBasicV::List(t) => wf_ty(t),
        TyBasicV::Dict(k, v) => wf_ty(k) && wf_ty(v),
        TyBasicV::Tuple(ts) => wf_tys(ts, 0),
        TyBasicV::Iter(t) => wf_ty(t),
        TyBasicV::Custom(TyCustomV::Function(f)) => wf_params(f.params, 0) && wf_ty(f.result),
        _ => true,
    }
}

/// All types from index `i` on are well-formed.
pub open spec fn wf_tys(s: Seq<TyV>, i: int) -> bool
    decreases s, s.len() - i,
{
    i < 0 || i >= s.len() || (wf_ty(s[i]) && wf_tys(s, i + 1))
}

/// All parameter types from index `i` on are well-formed.
pub open spec fn wf_params(s: Seq<ParamV>, i: int) -> bool
    decreases s, s.len() - i,
{
    i < 0 || i >= s.len() || (wf_ty(s[i].ty) && wf_params(s, i + 1))
}

/// Every alternative of a well-formed sequence tail is well-formed.
pub proof fn lemma_wf_alts(s: Seq<TyBasicV>, i: int)
    requires
        wf_alts(s, i),
        0 <= i,
    ensures
        forall|j: int| i <= j < s.len() ==> wf_basic(#[trigger] s[j]),
    decreases s.len() - i,
{
    if i < s.len() {
        lemma_wf_alts(s, i + 1);
    }
}

/// Every type of a well-formed sequence tail is well-formed.
pub proof fn lemma_wf_tys(s: Seq<TyV>, i: int)
    requires
        wf_tys(s, i),
        0 <= i,
    ensures
        forall|j: int| i <= j < s.len() ==> wf_ty(#[trigger] s[j]),
    decreases s.len() - i,
{
    if i < s.len() {
        lemma_wf_tys(s, i + 1);
    }
}

/// A sequence whose every element from `i` on is well-formed is a
/// well-formed tail.
pub proof fn lemma_wf_alts_intro(s: Seq<TyBasicV>, i: int)
    requires
        0 <= i,
        forall|j: int| i <= j < s.len() ==> wf_basic(#[trigger] s[j]),
    ensures
        wf_alts(s, i),
    decreases s.len() - i,
{
    if i < s.len() {
        lemma_wf_alts_intro(s, i + 1);
    }
}

// ---------------------------------------------------------------------------
// Union, at the ghost level.
// ---------------------------------------------------------------------------

/// Whether alternative `x` of the right operand is already accounted for by
/// the left operand `a`: lists and dictionaries are merged into `a`'s own
/// list or dictionary alternative, everything else by equality.
pub open spec fn covered_v(a: TyV, x: TyBasicV) -> bool {
    ||| (x is List && a.has_list())
    ||| (x is Dict && a.has_dict())
    ||| a.alts.contains(x)
}

/// The left operand's alternatives with its list (dictionary) element types
/// merged with the right operand's, from index `i` on, appended to `acc`.
pub open spec fn merge_side_v(aa: Seq<TyBasicV>, b: TyV, i: int, acc: Seq<TyBasicV>) -> Seq<
    TyBasicV,
>
    decreases aa, aa.len() - i,
{
    if i < 0 || i >= aa.len() {
        acc
    } else {
        merge_side_v(aa, b, i + 1, acc.push(merge_one_v(aa[i], b)))
    }
}

/// One left-operand alternative after merging with the right operand: a list
/// (dictionary) absorbs the right operand's list (dictionary) element types;
/// everything else is unchanged.
pub open spec fn merge_one_v(x: TyBasicV, b: TyV) -> TyBasicV
    decreases x, 5int,
{
    match x {
        TyBasicV::List(e) => if b.has_list() {
            TyBasicV::List(union2_v(e, b.list_elem()))
        } else {
            x
        },
        TyBasicV::Dict(k, v) => if b.has_dict() {
            TyBasicV::Dict(union2_v(k, b.dict_key()), union2_v(v, b.dict_val()))
        } else {
            x
        },
        _ => x,
    }
}

/// The right operand's alternatives not covered by `a`, from index `i` on,
/// appended to `acc`.
pub open spec fn add_uncovered_v(acc: Seq<TyBasicV>, bs: Seq<TyBasicV>, a: TyV, i: int) -> Seq<
    TyBasicV,
>
    decreases bs.len() - i,
{
    if i < 0 || i >= bs.len() {
        acc
    } else {
        add_uncovered_v(
            if covered_v(a, bs[i]) {
                acc
            } else {
                acc.push(bs[i])
            },
            bs,
            a,
            i + 1,
        )
    }
}

/// The union of two types: flatten, drop duplicates, absorb `Never`, absorb
/// into `Any`, and merge list with list and dictionary with dictionary.
pub open spec fn union2_v(a: TyV, b: TyV) -> TyV
    decreases a, 4int,
{
    if a.is_any() || b.is_any() {
        any_v()
    } else if a.is_never() {
        b
    } else if b.is_never() {
        a
    } else {
        TyV { alts: add_uncovered_v(merge_side_v(a.alts, b, 0, Seq::empty()), b.alts, a, 0) }
    }
}

/// The union of a sequence of types from index `i` on, folded onto `acc`.
pub open spec fn unions_v(s: Seq<TyV>, i: int, acc: TyV) -> TyV
    decreases s.len() - i,
{
    if i < 0 || i >= s.len() {
        acc
    } else {
        unions_v(s, i + 1, union2_v(acc, s[i]))
    }
}

// ---------------------------------------------------------------------------
// Laws of the union.
// ---------------------------------------------------------------------------

/// Union with `Never` is the identity on either side, so `Never` cannot
/// resurface from a union with a non-`Never` type; union with `Any` absorbs
/// the whole union into a type that `is_any`.
pub proof fn lemma_union_never_any(t: TyV)
    requires
        wf_ty(t),
    ensures
        union2_v(t, never_v()) == t,
        union2_v(never_v(), t) == t,
        !t.is_never() ==> !union2_v(t, never_v()).is_never(),
        union2_v(t, any_v()).is_any(),
        union2_v(any_v(), t).is_any(),
{
    if t.is_any() {
        assert(t.alts[0] == TyBasicV::Any);
        assert(t.alts =~= any_v().alts);
        assert(t =~= any_v());
    }
    if t.is_never() {
        assert(t.alts =~= never_v().alts);
        assert(t =~= never_v());
    }
    assert(!never_v().is_any());
}

// ---------------------------------------------------------------------------
// Connecting the executable values to their mirrors.
// ---------------------------------------------------------------------------

/// The mirror of a type lists the mirrors of its alternatives.
pub proof fn lemma_ty_mirror(t: Ty)
    ensures
        t@.alts.len() == t.alternatives@.len(),
        forall|i: int|
            0 <= i < t.alternatives@.len() ==> t@.alts[i] == basic_v(#[trigger] t.alternatives@[i]),
{
    lemma_alts_v(t.alternatives@, 0, Seq::empty());
}

/// The mirror of a tuple lists the mirrors of its element types.
pub proof fn lemma_tuple_mirror(ts: Seq<Ty>)
    ensures
        tys_v(ts, 0, Seq::empty()).len() == ts.len(),
        forall|i: int| 0 <= i < ts.len() ==> tys_v(ts, 0, Seq::empty())[i] == ty_v(#[trigger] ts[i]),
{
    lemma_tys_v(ts, 0, Seq::empty());
}

/// The mirror of a parameter list lists the mirrors of its parameters.
pub proof fn lemma_params_mirror(ps: Seq<Param>)
    ensures
        params_v(ps, 0, Seq::empty()).len() == ps.len(),
        forall|i: int|
            0 <= i < ps.len() ==> params_v(ps, 0, Seq::empty())[i] == param_v(#[trigger] ps[i]),
{
    lemma_params_v(ps, 0, Seq::empty());
}

// ---------------------------------------------------------------------------
// Structural equality.
// ---------------------------------------------------------------------------

impl TyStarlarkValue {
    /// Build a descriptor.
    pub fn new(name: String, has_plus: bool, has_minus: bool, has_bit_not: bool) -> (r:
        TyStarlarkValue)
        ensures
            r@ == (TyStarlarkValueV { name: name@, has_plus, has_minus, has_bit_not }),
    {
        TyStarlarkValue { name, has_plus, has_minus, has_bit_not }
    }

    /// The runtime type name this descriptor stands for.
    pub fn as_name(&self) -> (r: &String)
        ensures
            r@ == self@.name,
    {
        &self.name
    }

    /// Whether two descriptors describe the same runtime type.
    pub fn eq_sv(&self, other: &TyStarlarkValue) -> (r: bool)
        ensures
            r == (self@ == other@),
    {
        let r = self.name == other.name && self.has_plus == other.has_plus && self.has_minus
            == other.has_minus && self.has_bit_not == other.has_bit_not;
        proof {
            if r {
                assert(self@ =~= other@);
            }
        }
        r
    }
}

impl ParamMode {
    /// Whether two modes are the same, names included.
    pub fn eq_mode(&self, other: &ParamMode) -> (r: bool)
        ensures
            r == (self@ == other@),
    {
        match (self, other) {
            (ParamMode::PosOnly, ParamMode::PosOnly) => true,
            (ParamMode::PosOrName(a), ParamMode::PosOrName(b)) => *a == *b,
            (ParamMode::NameOnly(a), ParamMode::NameOnly(b)) => *a == *b,
            (ParamMode::Args, ParamMode::Args) => true,
            (ParamMode::Kwargs, ParamMode::Kwargs) => true,
            _ => false,
        }
    }
}

impl Ty {
    /// Whether two types are structurally equal.
    pub fn eq_ty(&self, other: &Ty) -> (r: bool)
        ensures
            r == (self@ == other@),
        decreases *self,
    {
        proof {
            lemma_ty_mirror(*self);
            lemma_ty_mirror(*other);
        }
        let n = self.alternatives.len();
        if n != other.alternatives.len() {
            return false;
        }
        for i in 0..n
            invariant
                n == self.alternatives.len() == other.alternatives.len(),
                forall|j: int| 0 <= j < i ==> self@.alts[j] == other@.alts[j],
                self@.alts.len() == n,
                other@.alts.len() == n,
                forall|j: int|
                    0 <= j < n ==> self@.alts[j] == basic_v(#[trigger] self.alternatives@[j]),
                forall|j: int|
                    0 <= j < n ==> other@.alts[j] == basic_v(#[trigger] other.alternatives@[j]),
        {
            let e = basic_eq(&self.alternatives[i], &other.alternatives[i]);
            if !e {
                proof {
                    assert(self@.alts[i as int] != other@.alts[i as int]);
                }
                return false;
            }
        }
        proof {
            assert(self@.alts =~= other@.alts);
            assert(self@ =~= other@);
        }
        true
    }
}

/// Whether two alternatives are structurally equal.
pub fn basic_eq(a: &TyBasic, b: &TyBasic) -> (r: bool)
    ensures
        r == (a@ == b@),
    decreases *a,
{
    match (a, b) {
        (TyBasic::Any, TyBasic::Any) => true,
        (TyBasic::Name(x), TyBasic::Name(y)) => *x == *y,
        (TyBasic::StarlarkValue(x), TyBasic::StarlarkValue(y)) => x.eq_sv(y),
        (TyBasic::List(x), TyBasic::List(y)) => x.eq_ty(y),
        (TyBasic::Dict(xk, xv), TyBasic::Dict(yk, yv)) => xk.eq_ty(yk) && xv.eq_ty(yv),
        (TyBasic::Tuple(xs), TyBasic::Tuple(ys)) => {
            proof {
                lemma_tuple_mirror(xs@);
                lemma_tuple_mirror(ys@);
            }
            let n = xs.len();
            if n != ys.len() {
                proof {
                    assert(a@ != b@);
                }
                return false;
            }
            for i in 0..n
                invariant
                    n == xs.len() == ys.len(),
                    forall|j: int| 0 <= j < i ==> ty_v(#[trigger] xs@[j]) == ty_v(ys@[j]),
                    *a == TyBasic::Tuple(*xs),
                    *b == TyBasic::Tuple(*ys),
                    tys_v(xs@, 0, Seq::empty()).len() == n,
                    tys_v(ys@, 0, Seq::empty()).len() == n,
                    forall|j: int|
                        0 <= j < n ==> tys_v(xs@, 0, Seq::empty())[j] == ty_v(#[trigger] xs@[j]),
                    forall|j: int|
                        0 <= j < n ==> tys_v(ys@, 0, Seq::empty())[j] == ty_v(#[trigger] ys@[j]),
            {
                proof {
                    assert(decreases_to!(*a => (*a)->Tuple_0));
                    assert((*a)->Tuple_0 == *xs);
                    assert(decreases_to!(*xs => xs@));
                    assert(decreases_to!(xs@ => xs@[i as int]));
                }
                let e = xs[i].eq_ty(&ys[i]);
                if !e {
                    proof {
                        assert(tys_v(xs@, 0, Seq::empty())[i as int] != tys_v(
                            ys@,
                            0,
                            Seq::empty(),
                        )[i as int]);
                        assert(a@ != b@);
                    }
                    return false;
                }
            }
            proof {
                assert forall|k: int|
                    0 <= k < n implies tys_v(xs@, 0, Seq::empty())[k] == tys_v(
                    ys@,
                    0,
                    Seq::empty(),
                )[k] by {
                    assert(ty_v(xs@[k]) == ty_v(ys@[k]));
                }
                assert(tys_v(xs@, 0, Seq::empty()) =~= tys_v(ys@, 0, Seq::empty()));
            }
            true
        },
        (TyBasic::Iter(x), TyBasic::Iter(y)) => x.eq_ty(y),
        (TyBasic::Custom(TyCustom::Function(f)), TyBasic::Custom(TyCustom::Function(g))) => fun_eq(
            f,
            g,
        ),
        _ => false,
    }
}

/// Whether two callable signatures are structurally equal.
pub fn fun_eq(f: &TyFunction, g: &TyFunction) -> (r: bool)
    ensures
        r == (f@ == g@),
    decreases *f,
{
    proof {
        lemma_params_mirror(f.params@);
        lemma_params_mirror(g.params@);
    }
    let n = f.params.len();
    if n != g.params.len() {
        return false;
    }
    for i in 0..n
        invariant
            n == f.params.len() == g.params.len(),
            forall|j: int| 0 <= j < i ==> param_v(#[trigger] f.params@[j]) == param_v(g.params@[j]),
            params_v(f.params@, 0, Seq::empty()).len() == n,
            params_v(g.params@, 0, Seq::empty()).len() == n,
            forall|j: int|
                0 <= j < n ==> params_v(f.params@, 0, Seq::empty())[j] == param_v(
                    #[trigger] f.params@[j],
                ),
            forall|j: int|
                0 <= j < n ==> params_v(g.params@, 0, Seq::empty())[j] == param_v(
                    #[trigger] g.params@[j],
                ),
    {
        let e = param_eq(&f.params[i], &g.params[i]);
        if !e {
            proof {
                assert(params_v(f.params@, 0, Seq::empty())[i as int] != params_v(
                    g.params@,
                    0,
                    Seq::empty(),
                )[i as int]);
                assert(f@ != g@);
            }
            return false;
        }
    }
    let r = f.result.eq_ty(&g.result);
    proof {
        if r {
            assert forall|k: int|
                0 <= k < n implies params_v(f.params@, 0, Seq::empty())[k] == params_v(
                g.params@,
                0,
                Seq::empty(),
            )[k] by {
                assert(param_v(f.params@[k]) == param_v(g.params@[k]));
            }
            assert(params_v(f.params@, 0, Seq::empty()) =~= params_v(g.params@, 0, Seq::empty()));
            assert(f@ =~= g@);
        }
    }
    r
}

/// Whether two parameters are structurally equal.
pub fn param_eq(p: &Param, q: &Param) -> (r: bool)
    ensures
        r == (p@ == q@),
    decreases *p,
{
    let r = p.mode.eq_mode(&q.mode) && p.optional == q.optional && p.ty.eq_ty(&q.ty);
    proof {
        if r {
            assert(p@ =~= q@);
        }
    }
    r
}

// ---------------------------------------------------------------------------
// Clone: a copy with the same mirror.
// ---------------------------------------------------------------------------

impl Clone for TyStarlarkValue {
    /// A copy describing the same runtime type.
    fn clone(&self) -> (r: Self)
        ensures
            r@ == self@,
    {
        let r = TyStarlarkValue {
            name: self.name.clone(),
            has_plus: self.has_plus,
            has_minus: self.has_minus,
            has_bit_not: self.has_bit_not,
        };
        proof {
            assert(r@ =~= self@);
        }
        r
    }
}

impl Clone for ParamMode {
    /// A copy with the same mirror.
    fn clone(&self) -> (r: Self)
        ensures
            r@ == self@,
    {
        match self {
            ParamMode::PosOnly => ParamMode::PosOnly,
            ParamMode::PosOrName(n) => ParamMode::PosOrName(n.clone()),
            ParamMode::NameOnly(n) => ParamMode::NameOnly(n.clone()),
            ParamMode::Args => ParamMode::Args,
            ParamMode::Kwargs => ParamMode::Kwargs,
        }
    }
}

impl Clone for Ty {
    /// A copy with the same mirror.
    fn clone(&self) -> (r: Self)
        ensures
            r@ == self@,
        decreases *self,
    {
        proof {
            lemma_ty_mirror(*self);
        }
        let n = self.alternatives.len();
        let mut alts: Vec<TyBasic> = Vec::new();
        for i in 0..n
            invariant
                n == self.alternatives.len(),
                alts@.len() == i,
                forall|j: int|
                    0 <= j < i ==> basic_v(#[trigger] alts@[j]) == basic_v(self.alternatives@[j]),
        {
            let b = self.alternatives[i].clone();
            alts.push(b);
        }
        let r = Ty { alternatives: alts };
        proof {
            lemma_ty_mirror(r);
            lemma_ty_mirror(*self);
            assert forall|k: int| 0 <= k < n implies r@.alts[k] == self@.alts[k] by {
                assert(basic_v(alts@[k]) == basic_v(self.alternatives@[k]));
            }
            assert(r@.alts =~= self@.alts);
            assert(r@ =~= self@);
        }
        r
    }
}

impl Clone for TyBasic {
    /// A copy with the same mirror.
    fn clone(&self) -> (r: Self)
        ensures
            r@ == self@,
        decreases *self,
    {
        match self {
            TyBasic::Any => TyBasic::Any,
            TyBasic::Name(s) => TyBasic::Name(s.clone()),
            TyBasic::StarlarkValue(sv) => TyBasic::StarlarkValue(sv.clone()),
            TyBasic::List(t) => TyBasic::List(Box::new((**t).clone())),
            TyBasic::Dict(k, v) => TyBasic::Dict(Box::new((**k).clone()), Box::new((**v).clone())),
            TyBasic::Tuple(ts) => {
                proof {
                    lemma_tuple_mirror(ts@);
                }
                let n = ts.len();
                let mut out: Vec<Ty> = Vec::new();
                for i in 0..n
                    invariant
                        n == ts.len(),
                        out@.len() == i,
                        *self == TyBasic::Tuple(*ts),
                        forall|j: int|
                            0 <= j < i ==> ty_v(#[trigger] out@[j]) == ty_v(ts@[j]),
                {
                    proof {
                        assert(decreases_to!(*self => (*self)->Tuple_0));
                        assert((*self)->Tuple_0 == *ts);
                        assert(decreases_to!(*ts => ts@));
                        assert(decreases_to!(ts@ => ts@[i as int]));
                    }
                    let t = ts[i].clone();
                    out.push(t);
                }
                let r = TyBasic::Tuple(out);
                proof {
                    lemma_tuple_mirror(out@);
                    assert forall|k: int|
                        0 <= k < n implies tys_v(out@, 0, Seq::empty())[k] == tys_v(
                        ts@,
                        0,
                        Seq::empty(),
                    )[k] by {
                        assert(ty_v(out@[k]) == ty_v(ts@[k]));
                    }
                    assert(tys_v(out@, 0, Seq::empty()) =~= tys_v(ts@, 0, Seq::empty()));
                }
                r
            },
            TyBasic::Iter(t) => TyBasic::Iter(Box::new((**t).clone())),
            TyBasic::Custom(TyCustom::Function(f)) => TyBasic::Custom(TyCustom::Function(f.clone())),
        }
    }
}

impl Clone for TyFunction {
    /// A copy with the same mirror.
    fn clone(&self) -> (r: Self)
        ensures
            r@ == self@,
        decreases *self,
    {
        proof {
            lemma_params_mirror(self.params@);
        }
        let n = self.params.len();
        let mut ps: Vec<Param> = Vec::new();
        for i in 0..n
            invariant
                n == self.params.len(),
                ps@.len() == i,
                forall|j: int| 0 <= j < i ==> param_v(#[trigger] ps@[j]) == param_v(self.params@[j]),
        {
            let p = self.params[i].clone();
            ps.push(p);
        }
        let r = TyFunction { params: ps, result: Box::new((*self.result).clone()) };
        proof {
            lemma_params_mirror(r.params@);
            assert forall|k: int|
                0 <= k < n implies params_v(r.params@, 0, Seq::empty())[k] == params_v(
                self.params@,
                0,
                Seq::empty(),
            )[k] by {
                assert(param_v(r.params@[k]) == param_v(self.params@[k]));
            }
            assert(params_v(r.params@, 0, Seq::empty()) =~= params_v(self.params@, 0, Seq::empty()));
            assert(r@ =~= self@);
        }
        r
    }
}

impl Clone for Param {
    /// A copy with the same mirror.
    fn clone(&self) -> (r: Self)
        ensures
            r@ == self@,
        decreases *self,
    {
        let r = Param { mode: self.mode.clone(), optional: self.optional, ty: self.ty.clone() };
        proof {
            assert(r@ =~= self@);
        }
        r
    }
}

impl Clone for TyCustom {
    /// A copy with the same mirror.
    fn clone(&self) -> (r: Self)
        ensures
            r@ == self@,
        decreases *self,
    {
        match self {
            TyCustom::Function(f) => TyCustom::Function(f.clone()),
        }
    }
}

// ---------------------------------------------------------------------------
// Canonical builtin shapes, at the ghost level.
// ---------------------------------------------------------------------------

/// The descriptor mirror of a builtin runtime type.
pub open spec fn sv_v(name: Seq<char>, has_plus: bool, has_minus: bool, has_bit_not: bool) -> TyV {
    TyV {
        alts: seq![
            TyBasicV::StarlarkValue(TyStarlarkValueV { name, has_plus, has_minus, has_bit_not }),
        ],
    }
}

/// The `None` type.
pub open spec fn none_v() -> TyV {
    sv_v("NoneType"@, false, false, false)
}

/// The boolean type.
pub open spec fn bool_v() -> TyV {
    sv_v("bool"@, false, false, false)
}

/// The integer type.
pub open spec fn int_v() -> TyV {
    sv_v("int"@, true, true, true)
}

/// The floating-point type.
pub open spec fn float_v() -> TyV {
    sv_v("float"@, true, true, false)
}

/// The string type.
pub open spec fn string_v() -> TyV {
    sv_v("string"@, false, false, false)
}

/// The tuple runtime type with unknown element types.
pub open spec fn any_tuple_v() -> TyV {
    sv_v("tuple"@, false, false, false)
}

/// A list with the given element type.
pub open spec fn list_v(elem: TyV) -> TyV {
    TyV { alts: seq![TyBasicV::List(elem)] }
}

/// A dictionary with the given key and value types.
pub open spec fn dict_v(key: TyV, value: TyV) -> TyV {
    TyV { alts: seq![TyBasicV::Dict(key, value)] }
}

/// An iterable yielding the given element type.
pub open spec fn iter_v(elem: TyV) -> TyV {
    TyV { alts: seq![TyBasicV::Iter(elem)] }
}

/// A tuple with the given element types.
pub open spec fn tuple_v(elems: Seq<TyV>) -> TyV {
    TyV { alts: seq![TyBasicV::Tuple(elems)] }
}

/// A callable with the given signature.
pub open spec fn function_v(params: Seq<ParamV>, result: TyV) -> TyV {
    TyV {
        alts: seq![
            TyBasicV::Custom(TyCustomV::Function(TyFunctionV { params, result })),
        ],
    }
}

impl TyV {
    /// Whether this is a single list alternative.
    pub open spec fn is_list(self) -> bool {
        self.alts.len() == 1 && self.alts[0] is List
    }

    /// Whether this is a callable.
    pub open spec fn is_function(self) -> bool {
        self.alts.len() == 1 && self.alts[0] is Custom
    }
}

// ---------------------------------------------------------------------------
// Predicates and constructors.
// ---------------------------------------------------------------------------

impl Ty {
    /// Whether this is the unconstrained type.
    pub fn is_any(&self) -> (r: bool)
        ensures
            r == self@.is_any(),
    {
        proof {
            lemma_ty_mirror(*self);
        }
        self.alternatives.len() == 1 && match &self.alternatives[0] {
            TyBasic::Any => true,
            _ => false,
        }
    }

    /// Whether this is the bottom type.
    pub fn is_never(&self) -> (r: bool)
        ensures
            r == self@.is_never(),
    {
        proof {
            lemma_ty_mirror(*self);
        }
        self.alternatives.len() == 0
    }

    /// Whether this is a single list type.
    pub fn is_list(&self) -> (r: bool)
        ensures
            r == self@.is_list(),
    {
        proof {
            lemma_ty_mirror(*self);
        }
        self.alternatives.len() == 1 && match &self.alternatives[0] {
            TyBasic::List(_) => true,
            _ => false,
        }
    }

    /// Whether this is a callable.
    pub fn is_function(&self) -> (r: bool)
        ensures
            r == self@.is_function(),
    {
        proof {
            lemma_ty_mirror(*self);
        }
        self.alternatives.len() == 1 && match &self.alternatives[0] {
            TyBasic::Custom(_) => true,
            _ => false,
        }
    }

    /// The alternatives of the union, for case analysis.
    pub fn iter_union(&self) -> (r: &Vec<TyBasic>)
        ensures
            r@.len() == self@.alts.len(),
            forall|i: int| 0 <= i < r@.len() ==> basic_v(#[trigger] r@[i]) == self@.alts[i],
    {
        proof {
            lemma_ty_mirror(*self);
        }
        &self.alternatives
    }

    /// A union of one alternative.
    pub fn basic(b: TyBasic) -> (r: Ty)
        requires
            wf_basic(b@),
        ensures
            r@ == (TyV { alts: seq![b@] }),
            wf_ty(r@),
    {
        let mut alts: Vec<TyBasic> = Vec::new();
        alts.push(b);
        let r = Ty { alternatives: alts };
        proof {
            lemma_ty_mirror(r);
            assert(r@.alts =~= seq![basic_v(b)]);
            assert(r@ =~= (TyV { alts: seq![basic_v(b)] }));
        }
        r
    }

    /// The unconstrained type.
    pub fn any() -> (r: Ty)
        ensures
            r@ == any_v(),
            wf_ty(r@),
    {
        let r = Ty::basic(TyBasic::Any);
        proof {
            assert(r@ =~= any_v());
        }
        r
    }

    /// The bottom type.
    pub fn never() -> (r: Ty)
        ensures
            r@ == never_v(),
            wf_ty(r@),
    {
        let r = Ty { alternatives: Vec::new() };
        proof {
            lemma_ty_mirror(r);
            assert(r@ =~= never_v());
        }
        r
    }

    /// The `None` type.
    pub fn none() -> (r: Ty)
        ensures
            r@ == none_v(),
            wf_ty(r@),
    {
        let r = Ty::basic(
            TyBasic::StarlarkValue(TyStarlarkValue::new(new_string("NoneType"), false, false, false)),
        );
        proof {
            assert(r@ =~= none_v());
        }
        r
    }

    /// The boolean type.
    pub fn bool() -> (r: Ty)
        ensures
            r@ == bool_v(),
            wf_ty(r@),
    {
        let r = Ty::basic(
            TyBasic::StarlarkValue(TyStarlarkValue::new(new_string("bool"), false, false, false)),
        );
        proof {
            assert(r@ =~= bool_v());
        }
        r
    }

    /// The integer type.
    pub fn int_ty() -> (r: Ty)
        ensures
            r@ == int_v(),
            wf_ty(r@),
    {
        let r = Ty::basic(
            TyBasic::StarlarkValue(TyStarlarkValue::new(new_string("int"), true, true, true)),
        );
        proof {
            assert(r@ =~= int_v());
        }
        r
    }

    /// The floating-point type.
    pub fn float() -> (r: Ty)
        ensures
            r@ == float_v(),
            wf_ty(r@),
    {
        let r = Ty::basic(
            TyBasic::StarlarkValue(TyStarlarkValue::new(new_string("float"), true, true, false)),
        );
        proof {
            assert(r@ =~= float_v());
        }
        r
    }

    /// The string type.
    pub fn string() -> (r: Ty)
        ensures
            r@ == string_v(),
            wf_ty(r@),
    {
        let r = Ty::basic(
            TyBasic::StarlarkValue(TyStarlarkValue::new(new_string("string"), false, false, false)),
        );
        proof {
            assert(r@ =~= string_v());
        }
        r
    }

    /// The tuple runtime type with unknown element types.
    pub fn any_tuple() -> (r: Ty)
        ensures
            r@ == any_tuple_v(),
            wf_ty(r@),
    {
        let r = Ty::basic(
            TyBasic::StarlarkValue(TyStarlarkValue::new(new_string("tuple"), false, false, false)),
        );
        proof {
            assert(r@ =~= any_tuple_v());
        }
        r
    }

    /// A list with the given element type.
    pub fn list(elem: Ty) -> (r: Ty)
        requires
            wf_ty(elem@),
        ensures
            r@ == list_v(elem@),
            wf_ty(r@),
    {
        let ghost ev = elem@;
        let r = Ty::basic(TyBasic::List(Box::new(elem)));
        proof {
            assert(r@ =~= list_v(ev));
        }
        r
    }

    /// A dictionary with the given key and value types.
    pub fn dict(key: Ty, value: Ty) -> (r: Ty)
        requires
            wf_ty(key@),
            wf_ty(value@),
        ensures
            r@ == dict_v(key@, value@),
            wf_ty(r@),
    {
        let ghost kv = key@;
        let ghost vv = value@;
        let r = Ty::basic(TyBasic::Dict(Box::new(key), Box::new(value)));
        proof {
            assert(r@ =~= dict_v(kv, vv));
        }
        r
    }

    /// An iterable yielding the given element type.
    pub fn iter(elem: Ty) -> (r: Ty)
        requires
            wf_ty(elem@),
        ensures
            r@ == iter_v(elem@),
            wf_ty(r@),
    {
        let ghost ev = elem@;
        let r = Ty::basic(TyBasic::Iter(Box::new(elem)));
        proof {
            assert(r@ =~= iter_v(ev));
        }
        r
    }

    /// A tuple with the given element types.
    pub fn tuple(elems: Vec<Ty>) -> (r: Ty)
        requires
            forall|i: int| 0 <= i < elems@.len() ==> wf_ty(ty_v(#[trigger] elems@[i])),
        ensures
            r@ == tuple_v(tyseq_v(elems@)),
            wf_ty(r@),
    {
        let ghost es = elems@;
        let b = TyBasic::Tuple(elems);
        proof {
            lemma_tuple_mirror(es);
            assert(tys_v(es, 0, Seq::empty()) =~= tyseq_v(es));
            assert forall|j: int|
                0 <= j < tys_v(es, 0, Seq::empty()).len() implies wf_ty(
                #[trigger] tys_v(es, 0, Seq::empty())[j],
            ) by {
                assert(tys_v(es, 0, Seq::empty())[j] == ty_v(es[j]));
            }
            lemma_wf_tys_intro(tys_v(es, 0, Seq::empty()), 0);
        }
        let r = Ty::basic(b);
        proof {
            assert(r@ =~= tuple_v(tyseq_v(es)));
        }
        r
    }

    /// A callable with the given signature.
    pub fn function(params: Vec<Param>, result: Ty) -> (r: Ty)
        requires
            forall|i: int| 0 <= i < params@.len() ==> wf_ty(param_v(#[trigger] params@[i]).ty),
            wf_ty(result@),
        ensures
            r@ == function_v(params_v(params@, 0, Seq::empty()), result@),
            wf_ty(r@),
    {
        let ghost ps = params@;
        let ghost rv = result@;
        let b = TyBasic::Custom(
            TyCustom::Function(TyFunction { params, result: Box::new(result) }),
        );
        proof {
            lemma_params_mirror(ps);
            assert forall|j: int|
                0 <= j < params_v(ps, 0, Seq::empty()).len() implies wf_ty(
                #[trigger] params_v(ps, 0, Seq::empty())[j].ty,
            ) by {
                assert(params_v(ps, 0, Seq::empty())[j] == param_v(ps[j]));
            }
            lemma_wf_params_intro(params_v(ps, 0, Seq::empty()), 0);
        }
        let r = Ty::basic(b);
        proof {
            assert(r@ =~= function_v(params_v(ps, 0, Seq::empty()), rv));
        }
        r
    }

    /// A callable accepting any arguments and returning anything.
    pub fn any_function() -> (r: Ty)
        ensures
            r@ == function_v(
                seq![
                    ParamV { mode: ParamModeV::Args, optional: true, ty: any_v() },
                    ParamV { mode: ParamModeV::Kwargs, optional: true, ty: any_v() },
                ],
                any_v(),
            ),
            wf_ty(r@),
    {
        let mut params: Vec<Param> = Vec::new();
        params.push(Param::args(Ty::any()));
        params.push(Param::kwargs(Ty::any()));
        proof {
            lemma_params_mirror(params@);
            assert(params_v(params@, 0, Seq::empty())[0] == param_v(params@[0]));
            assert(params_v(params@, 0, Seq::empty())[1] == param_v(params@[1]));
            assert(params_v(params@, 0, Seq::empty()) =~= seq![
                ParamV { mode: ParamModeV::Args, optional: true, ty: any_v() },
                ParamV { mode: ParamModeV::Kwargs, optional: true, ty: any_v() },
            ]);
        }
        let r = Ty::function(params, Ty::any());
        r
    }
}

/// A fresh `String` holding the given text.
pub fn new_string(s: &str) -> (r: String)
    ensures
        r@ == s@,
{
    s.to_owned()
}

/// Every parameter type of a well-formed tail is well-formed.
pub proof fn lemma_wf_params(s: Seq<ParamV>, i: int)
    requires
        wf_params(s, i),
        0 <= i,
    ensures
        forall|j: int| i <= j < s.len() ==> wf_ty(#[trigger] s[j].ty),
    decreases s.len() - i,
{
    if i < s.len() {
        lemma_wf_params(s, i + 1);
    }
}

/// A sequence of well-formed types is a well-formed tail.
pub proof fn lemma_wf_tys_intro(s: Seq<TyV>, i: int)
    requires
        0 <= i,
        forall|j: int| i <= j < s.len() ==> wf_ty(#[trigger] s[j]),
    ensures
        wf_tys(s, i),
    decreases s.len() - i,
{
    if i < s.len() {
        lemma_wf_tys_intro(s, i + 1);
    }
}

/// A sequence of parameters with well-formed types is a well-formed tail.
pub proof fn lemma_wf_params_intro(s: Seq<ParamV>, i: int)
    requires
        0 <= i,
        forall|j: int| i <= j < s.len() ==> wf_ty(#[trigger] s[j].ty),
    ensures
        wf_params(s, i),
    decreases s.len() - i,
{
    if i < s.len() {
        lemma_wf_params_intro(s, i + 1);
    }
}

impl Param {
    /// A positional-only parameter.
    pub fn pos_only(ty: Ty) -> (r: Param)
        ensures
            r@ == (ParamV { mode: ParamModeV::PosOnly, optional: false, ty: ty@ }),
    {
        let ghost tv = ty@;
        let r = Param { mode: ParamMode::PosOnly, optional: false, ty };
        proof {
            assert(r@ =~= (ParamV { mode: ParamModeV::PosOnly, optional: false, ty: tv }));
        }
        r
    }

    /// A parameter passed by position or by name.
    pub fn pos_or_name(name: String, ty: Ty) -> (r: Param)
        ensures
            r@ == (ParamV { mode: ParamModeV::PosOrName(name@), optional: false, ty: ty@ }),
    {
        let ghost tv = ty@;
        let ghost nv = name@;
        let r = Param { mode: ParamMode::PosOrName(name), optional: false, ty };
        proof {
            assert(r@ =~= (ParamV { mode: ParamModeV::PosOrName(nv), optional: false, ty: tv }));
        }
        r
    }

    /// A parameter passed by name only.
    pub fn name_only(name: String, ty: Ty) -> (r: Param)
        ensures
            r@ == (ParamV { mode: ParamModeV::NameOnly(name@), optional: false, ty: ty@ }),
    {
        let ghost tv = ty@;
        let ghost nv = name@;
        let r = Param { mode: ParamMode::NameOnly(name), optional: false, ty };
        proof {
            assert(r@ =~= (ParamV { mode: ParamModeV::NameOnly(nv), optional: false, ty: tv }));
        }
        r
    }

    /// The `*args` parameter; its type is the required element type.
    pub fn args(ty: Ty) -> (r: Param)
        ensures
            r@ == (ParamV { mode: ParamModeV::Args, optional: true, ty: ty@ }),
    {
        let ghost tv = ty@;
        let r = Param { mode: ParamMode::Args, optional: true, ty };
        proof {
            assert(r@ =~= (ParamV { mode: ParamModeV::Args, optional: true, ty: tv }));
        }
        r
    }

    /// The `**kwargs` parameter; its type is the dictionary value type.
    pub fn kwargs(ty: Ty) -> (r: Param)
        ensures
            r@ == (ParamV { mode: ParamModeV::Kwargs, optional: true, ty: ty@ }),
    {
        let ghost tv = ty@;
        let r = Param { mode: ParamMode::Kwargs, optional: true, ty };
        proof {
            assert(r@ =~= (ParamV { mode: ParamModeV::Kwargs, optional: true, ty: tv }));
        }
        r
    }

    /// The same parameter, marked optional.
    pub fn into_optional(self) -> (r: Param)
        ensures
            r@ == (ParamV { mode: self@.mode, optional: true, ty: self@.ty }),
    {
        let ghost sv = self@;
        let r = Param { mode: self.mode, optional: true, ty: self.ty };
        proof {
            assert(r@ =~= (ParamV { mode: sv.mode, optional: true, ty: sv.ty }));
        }
        r
    }

    /// Whether the parameter accepts a positional argument.
    pub fn allows_pos(&self) -> (r: bool)
        ensures
            r == (self@.mode is PosOnly || self@.mode is PosOrName || self@.mode is Args),
    {
        match &self.mode {
            ParamMode::PosOnly => true,
            ParamMode::PosOrName(_) => true,
            ParamMode::Args => true,
            ParamMode::NameOnly(_) => false,
            ParamMode::Kwargs => false,
        }
    }

    /// Whether the parameter may take several arguments.
    pub fn allows_many(&self) -> (r: bool)
        ensures
            r == (self@.mode is Args || self@.mode is Kwargs),
    {
        match &self.mode {
            ParamMode::Args => true,
            ParamMode::Kwargs => true,
            _ => false,
        }
    }

    /// A display name for the parameter.
    pub fn name(&self) -> (r: String)
        ensures
            (self@.mode is PosOrName ==> r@ == self@.mode->PosOrName_0),
            (self@.mode is NameOnly ==> r@ == self@.mode->NameOnly_0),
            (self@.mode is PosOnly ==> r@ == "_"@),
            (self@.mode is Args ==> r@ == "*args"@),
            (self@.mode is Kwargs ==> r@ == "**kwargs"@),
    {
        match &self.mode {
            ParamMode::PosOnly => new_string("_"),
            ParamMode::PosOrName(x) => x.clone(),
            ParamMode::NameOnly(x) => x.clone(),
            ParamMode::Args => new_string("*args"),
            ParamMode::Kwargs => new_string("**kwargs"),
        }
    }
}

// ---------------------------------------------------------------------------
// Union lemmas.
// ---------------------------------------------------------------------------

/// Appending one alternative appends its mirror.
pub proof fn lemma_alts_push(s: Seq<TyBasic>, x: TyBasic)
    ensures
        alts_v(s.push(x), 0, Seq::empty()) == alts_v(s, 0, Seq::empty()).push(basic_v(x)),
{
    lemma_alts_v(s.push(x), 0, Seq::empty());
    lemma_alts_v(s, 0, Seq::empty());
    assert forall|j: int|
        0 <= j < s.len() + 1 implies alts_v(s.push(x), 0, Seq::empty())[j] == alts_v(
        s,
        0,
        Seq::empty(),
    ).push(basic_v(x))[j] by {
        if j < s.len() {
            assert(s.push(x)[j] == s[j]);
        } else {
            assert(s.push(x)[j] == x);
        }
    }
    assert(alts_v(s.push(x), 0, Seq::empty()) =~= alts_v(s, 0, Seq::empty()).push(basic_v(x)));
}

/// The merged left side, element by element.
pub proof fn lemma_merge_side(aa: Seq<TyBasicV>, b: TyV, i: int, acc: Seq<TyBasicV>)
    requires
        0 <= i <= aa.len(),
    ensures
        merge_side_v(aa, b, i, acc).len() == acc.len() + aa.len() - i,
        forall|j: int| 0 <= j < acc.len() ==> merge_side_v(aa, b, i, acc)[j] == acc[j],
        forall|j: int|
            i <= j < aa.len() ==> merge_side_v(aa, b, i, acc)[acc.len() + j - i] == merge_one_v(
                aa[j],
                b,
            ),
    decreases aa.len() - i,
{
    if i < aa.len() {
        let acc2 = acc.push(merge_one_v(aa[i], b));
        lemma_merge_side(aa, b, i + 1, acc2);
        assert(merge_side_v(aa, b, i, acc) == merge_side_v(aa, b, i + 1, acc2));
        assert forall|j: int| 0 <= j < acc.len() implies merge_side_v(aa, b, i, acc)[j] == acc[j] by {
            assert(merge_side_v(aa, b, i + 1, acc2)[j] == acc2[j]);
            assert(acc2[j] == acc[j]);
        }
        assert forall|j: int|
            i <= j < aa.len() implies merge_side_v(aa, b, i, acc)[acc.len() + j - i]
            == merge_one_v(aa[j], b) by {
            if j == i {
                assert(merge_side_v(aa, b, i + 1, acc2)[j + 1 - 1 - i + acc.len()] == acc2[acc.len() as int]);
            } else {
                assert(merge_side_v(aa, b, i + 1, acc2)[acc2.len() + j - i - 1] == merge_one_v(
                    aa[j],
                    b,
                ));
            }
        }
    }
}

/// The appended right side: a prefix kept as given, then a subsequence of the
/// uncovered right-hand alternatives, without duplicates where the right side
/// had none.
pub proof fn lemma_add_uncovered(acc: Seq<TyBasicV>, bs: Seq<TyBasicV>, a: TyV, i: int)
    requires
        0 <= i <= bs.len(),
    ensures
        acc.len() <= add_uncovered_v(acc, bs, a, i).len() <= acc.len() + bs.len() - i,
        forall|j: int| 0 <= j < acc.len() ==> add_uncovered_v(acc, bs, a, i)[j] == acc[j],
        forall|j: int|
            #![trigger add_uncovered_v(acc, bs, a, i)[j]]
            acc.len() <= j < add_uncovered_v(acc, bs, a, i).len() ==> exists|k: int|
                i <= k < bs.len() && add_uncovered_v(acc, bs, a, i)[j] == #[trigger] bs[k]
                    && !covered_v(a, bs[k]),
        (forall|k1: int, k2: int|
            i <= k1 < k2 < bs.len() ==> #[trigger] bs[k1] != #[trigger] bs[k2]) ==> (forall|
            j1: int,
            j2: int,
        |
            acc.len() <= j1 < j2 < add_uncovered_v(acc, bs, a, i).len() ==> #[trigger] add_uncovered_v(
                acc,
                bs,
                a,
                i,
            )[j1] != #[trigger] add_uncovered_v(acc, bs, a, i)[j2]),
    decreases bs.len() - i,
{
    if i < bs.len() {
        if covered_v(a, bs[i]) {
            lemma_add_uncovered(acc, bs, a, i + 1);
            assert(add_uncovered_v(acc, bs, a, i) == add_uncovered_v(acc, bs, a, i + 1));
        } else {
            let acc2 = acc.push(bs[i]);
            lemma_add_uncovered(acc2, bs, a, i + 1);
            let res = add_uncovered_v(acc, bs, a, i);
            assert(res == add_uncovered_v(acc2, bs, a, i + 1));
            assert forall|j: int| 0 <= j < acc.len() implies res[j] == acc[j] by {
                assert(add_uncovered_v(acc2, bs, a, i + 1)[j] == acc2[j]);
                assert(acc2[j] == acc[j]);
            }
            assert(res[acc.len() as int] == acc2[acc.len() as int]);
            assert forall|j: int|
                #![trigger res[j]]
                acc.len() <= j < res.len() implies exists|k: int|
                i <= k < bs.len() && res[j] == #[trigger] bs[k] && !covered_v(a, bs[k]) by {
                if j == acc.len() {
                    assert(res[j] == bs[i] && !covered_v(a, bs[i]));
                } else {
                    let k = choose|k: int|
                        i + 1 <= k < bs.len() && res[j] == bs[k] && !covered_v(a, bs[k]);
                    assert(i <= k < bs.len() && res[j] == bs[k] && !covered_v(a, bs[k]));
                }
            }
            if forall|k1: int, k2: int| i <= k1 < k2 < bs.len() ==> bs[k1] != bs[k2] {
                assert forall|j1: int, j2: int|
                    acc.len() <= j1 < j2 < res.len() implies res[j1] != res[j2] by {
                    if j1 == acc.len() {
                        let k = choose|k: int|
                            i + 1 <= k < bs.len() && res[j2] == bs[k] && !covered_v(a, bs[k]);
                        assert(bs[i] != bs[k]);
                    }
                }
            }
        }
    }
}

/// Where a well-formed type has a list alternative, that alternative is
/// unique, well-formed, and found at `list_at()`; the same for dictionaries.
pub proof fn lemma_container_at(t: TyV)
    requires
        wf_ty(t),
    ensures
        t.has_list() ==> 0 <= t.list_at() < t.alts.len() && t.alts[t.list_at()] is List,
        t.has_list() ==> forall|i: int|
            0 <= i < t.alts.len() && #[trigger] t.alts[i] is List ==> i == t.list_at(),
        t.has_list() ==> wf_ty(t.list_elem()),
        t.has_dict() ==> 0 <= t.dict_at() < t.alts.len() && t.alts[t.dict_at()] is Dict,
        t.has_dict() ==> forall|i: int|
            0 <= i < t.alts.len() && #[trigger] t.alts[i] is Dict ==> i == t.dict_at(),
        t.has_dict() ==> wf_ty(t.dict_key()) && wf_ty(t.dict_val()),
{
    lemma_wf_alts(t.alts, 0);
    if t.has_list() {
        let la = t.list_at();
        assert(0 <= la < t.alts.len() && t.alts[la] is List);
        assert(wf_basic(t.alts[la]));
    }
    if t.has_dict() {
        let da = t.dict_at();
        assert(0 <= da < t.alts.len() && t.alts[da] is Dict);
        assert(wf_basic(t.alts[da]));
    }
}

/// The union of two well-formed types is well-formed.
pub proof fn lemma_union2_v_wf(a: TyV, b: TyV)
    requires
        wf_ty(a),
        wf_ty(b),
    ensures
        wf_ty(union2_v(a, b)),
    decreases a, 6int,
{
    if a.is_any() || b.is_any() {
        assert(wf_alts(any_v().alts, 0)) by {
            assert(wf_basic(TyBasicV::Any));
            assert(wf_alts(any_v().alts, 1));
        }
    } else if a.is_never() || b.is_never() {
    } else {
        lemma_container_at(a);
        lemma_container_at(b);
        lemma_wf_alts(a.alts, 0);
        lemma_wf_alts(b.alts, 0);
        let ms = merge_side_v(a.alts, b, 0, Seq::empty());
        let res = add_uncovered_v(ms, b.alts, a, 0);
        lemma_merge_side(a.alts, b, 0, Seq::empty());
        lemma_add_uncovered(ms, b.alts, a, 0);
        // Well-formedness of the merged containers needs the induction
        // hypothesis on their element types.
        if a.has_list() && b.has_list() {
            let la = a.list_at();
            assert(decreases_to!(a => a.alts));
            assert(decreases_to!(a.alts => a.alts[la]));
            assert(decreases_to!(a.alts[la] => a.alts[la]->List_0));
            lemma_union2_v_wf(a.list_elem(), b.list_elem());
        }
        if a.has_dict() && b.has_dict() {
            let da = a.dict_at();
            assert(decreases_to!(a => a.alts));
            assert(decreases_to!(a.alts => a.alts[da]));
            assert(decreases_to!(a.alts[da] => a.alts[da]->Dict_0));
            assert(decreases_to!(a.alts[da] => a.alts[da]->Dict_1));
            lemma_union2_v_wf(a.dict_key(), b.dict_key());
            lemma_union2_v_wf(a.dict_val(), b.dict_val());
        }
        // Shape of each merged element.
        assert forall|j: int| 0 <= j < a.alts.len() implies wf_basic(#[trigger] ms[j])
            && (ms[j] is List <==> a.alts[j] is List) && (ms[j] is Dict <==> a.alts[j] is Dict)
            && (!(a.alts[j] is List) && !(a.alts[j] is Dict) ==> ms[j] == a.alts[j]) && !(ms[j] is Any) by {
            assert(ms[j] == merge_one_v(a.alts[j], b));
            assert(wf_basic(a.alts[j]));
            if a.alts[j] is List {
                assert(j == a.list_at());
                if b.has_list() {
                    assert(ms[j] == TyBasicV::List(union2_v(a.list_elem(), b.list_elem())));
                } else {
                    assert(ms[j] == a.alts[j]);
                }
            } else if a.alts[j] is Dict {
                assert(j == a.dict_at());
                if b.has_dict() {
                    assert(ms[j] == TyBasicV::Dict(
                        union2_v(a.dict_key(), b.dict_key()),
                        union2_v(a.dict_val(), b.dict_val()),
                    ));
                } else {
                    assert(ms[j] == a.alts[j]);
                }
            } else {
                assert(ms[j] == a.alts[j]);
                if a.alts[j] is Any {
                    assert(a.alts.len() != 1 ==> !(a.alts[j] is Any));
                    assert(a.alts.len() == 1 ==> a.is_any());
                    assert(false);
                }
            }
        }
        // Every appended element is an uncovered alternative of `b`.
        assert forall|j: int| ms.len() <= j < res.len() implies wf_basic(#[trigger] res[j]) && !(res[j] is Any)
            && !covered_v(a, res[j]) && (res[j] is List ==> !a.has_list()) && (res[j] is Dict
            ==> !a.has_dict()) && b.alts.contains(res[j]) by {
            let k = choose|k: int|
                0 <= k < b.alts.len() && res[j] == b.alts[k] && !covered_v(a, b.alts[k]);
            assert(wf_basic(b.alts[k]));
            if b.alts[k] is Any {
                assert(b.alts.len() == 1 ==> b.is_any());
                assert(false);
            }
        }
        // The result is well-formed: elements first.
        assert forall|j: int| 0 <= j < res.len() implies wf_basic(#[trigger] res[j]) by {
            if j < ms.len() {
                assert(res[j] == ms[j]);
            }
        }
        lemma_wf_alts_intro(res, 0);
        // No `Any` anywhere.
        assert forall|j: int| 0 <= j < res.len() implies !(#[trigger] res[j] is Any) by {
            if j < ms.len() {
                assert(res[j] == ms[j]);
            }
        }
        // Distinctness and container uniqueness.
        assert forall|j1: int, j2: int| 0 <= j1 < j2 < res.len() implies res[j1] != res[j2]
            && !(res[j1] is List && res[j2] is List) && !(res[j1] is Dict && res[j2] is Dict) by {
            if j2 < ms.len() {
                // Both merged: inherited from `a`.
                assert(res[j1] == ms[j1] && res[j2] == ms[j2]);
                if ms[j1] == ms[j2] {
                    if a.alts[j1] is List {
                        assert(ms[j2] is List);
                        assert(a.alts[j2] is List);
                        assert(false);
                    } else if a.alts[j1] is Dict {
                        assert(ms[j2] is Dict);
                        assert(a.alts[j2] is Dict);
                        assert(false);
                    } else if a.alts[j2] is List || a.alts[j2] is Dict {
                        assert(!(ms[j1] is List) && !(ms[j1] is Dict));
                        assert(false);
                    } else {
                        assert(a.alts[j1] == a.alts[j2]);
                        assert(false);
                    }
                }
            } else if j1 < ms.len() {
                // Merged against appended.
                assert(res[j1] == ms[j1]);
                if res[j1] == res[j2] {
                    if a.alts[j1] is List {
                        assert(res[j2] is List && a.has_list());
                        assert(covered_v(a, res[j2]));
                        assert(false);
                    } else if a.alts[j1] is Dict {
                        assert(res[j2] is Dict && a.has_dict());
                        assert(covered_v(a, res[j2]));
                        assert(false);
                    } else {
                        assert(res[j1] == a.alts[j1]);
                        assert(a.alts.contains(res[j2]));
                        assert(covered_v(a, res[j2]));
                        assert(false);
                    }
                }
                if res[j1] is List && res[j2] is List {
                    assert(a.alts[j1] is List);
                    assert(covered_v(a, res[j2]));
                    assert(false);
                }
                if res[j1] is Dict && res[j2] is Dict {
                    assert(a.alts[j1] is Dict);
                    assert(covered_v(a, res[j2]));
                    assert(false);
                }
            } else {
                // Both appended: `b`'s distinctness carries over.
                if res[j1] is List && res[j2] is List {
                    let k1 = choose|k: int|
                        0 <= k < b.alts.len() && res[j1] == b.alts[k] && !covered_v(a, b.alts[k]);
                    let k2 = choose|k: int|
                        0 <= k < b.alts.len() && res[j2] == b.alts[k] && !covered_v(a, b.alts[k]);
                    assert(b.alts[k1] is List && b.alts[k2] is List);
                    assert(k1 == b.list_at() && k2 == b.list_at());
                    assert(res[j1] == res[j2]);
                }
                if res[j1] is Dict && res[j2] is Dict {
                    let k1 = choose|k: int|
                        0 <= k < b.alts.len() && res[j1] == b.alts[k] && !covered_v(a, b.alts[k]);
                    let k2 = choose|k: int|
                        0 <= k < b.alts.len() && res[j2] == b.alts[k] && !covered_v(a, b.alts[k]);
                    assert(b.alts[k1] is Dict && b.alts[k2] is Dict);
                    assert(k1 == b.dict_at() && k2 == b.dict_at());
                    assert(res[j1] == res[j2]);
                }
                assert(res[j1] != res[j2]);
            }
        }
        assert(wf_ty(TyV { alts: res }));
    }
}

// ---------------------------------------------------------------------------
// Union, executable.
// ---------------------------------------------------------------------------

/// The index of the list alternative, where there is one.
fn find_list(t: &Ty) -> (r: Option<usize>)
    ensures
        match r {
            Option::Some(i) => i < t@.alts.len() && t@.alts[i as int] is List,
            Option::None => !t@.has_list(),
        },
{
    proof {
        lemma_ty_mirror(*t);
    }
    let n = t.alternatives.len();
    for i in 0..n
        invariant
            n == t.alternatives.len(),
            t@.alts.len() == n,
            forall|j: int| 0 <= j < n ==> t@.alts[j] == basic_v(#[trigger] t.alternatives@[j]),
            forall|j: int| 0 <= j < i ==> !(#[trigger] t@.alts[j] is List),
    {
        match &t.alternatives[i] {
            TyBasic::List(_) => {
                return Option::Some(i);
            },
            _ => {},
        }
    }
    Option::None
}

/// The index of the dictionary alternative, where there is one.
fn find_dict(t: &Ty) -> (r: Option<usize>)
    ensures
        match r {
            Option::Some(i) => i < t@.alts.len() && t@.alts[i as int] is Dict,
            Option::None => !t@.has_dict(),
        },
{
    proof {
        lemma_ty_mirror(*t);
    }
    let n = t.alternatives.len();
    for i in 0..n
        invariant
            n == t.alternatives.len(),
            t@.alts.len() == n,
            forall|j: int| 0 <= j < n ==> t@.alts[j] == basic_v(#[trigger] t.alternatives@[j]),
            forall|j: int| 0 <= j < i ==> !(#[trigger] t@.alts[j] is Dict),
    {
        match &t.alternatives[i] {
            TyBasic::Dict(_, _) => {
                return Option::Some(i);
            },
            _ => {},
        }
    }
    Option::None
}

/// The element type of the list alternative at `i`.
fn list_elem_at(t: &Ty, i: usize) -> (r: &Ty)
    requires
        i < t.alternatives@.len(),
        basic_v(t.alternatives@[i as int]) is List,
    ensures
        r@ == basic_v(t.alternatives@[i as int])->List_0,
{
    match &t.alternatives[i] {
        TyBasic::List(e) => &**e,
        _ => {
            proof {
                assert(false);
            }
            unreached()
        },
    }
}

/// The key and value types of the dictionary alternative at `i`.
fn dict_elems_at(t: &Ty, i: usize) -> (r: (&Ty, &Ty))
    requires
        i < t.alternatives@.len(),
        basic_v(t.alternatives@[i as int]) is Dict,
    ensures
        r.0@ == basic_v(t.alternatives@[i as int])->Dict_0,
        r.1@ == basic_v(t.alternatives@[i as int])->Dict_1,
{
    match &t.alternatives[i] {
        TyBasic::Dict(k, v) => (&**k, &**v),
        _ => {
            proof {
                assert(false);
            }
            unreached()
        },
    }
}

/// Whether some alternative of `v` mirrors to `x`'s mirror.
fn contains_basic(v: &Vec<TyBasic>, x: &TyBasic) -> (r: bool)
    ensures
        r == alts_v(v@, 0, Seq::empty()).contains(x@),
{
    proof {
        lemma_alts_v(v@, 0, Seq::empty());
    }
    let n = v.len();
    for i in 0..n
        invariant
            n == v.len(),
            alts_v(v@, 0, Seq::empty()).len() == n,
            forall|j: int|
                0 <= j < n ==> alts_v(v@, 0, Seq::empty())[j] == basic_v(#[trigger] v@[j]),
            forall|j: int| 0 <= j < i ==> basic_v(#[trigger] v@[j]) != x@,
    {
        if basic_eq(&v[i], x) {
            proof {
                assert(alts_v(v@, 0, Seq::empty())[i as int] == x@);
            }
            return true;
        }
    }
    proof {
        if alts_v(v@, 0, Seq::empty()).contains(x@) {
            let j = choose|j: int|
                0 <= j < n && alts_v(v@, 0, Seq::empty())[j] == x@;
            assert(basic_v(v@[j]) == x@);
        }
    }
    false
}

impl Ty {
    /// The union of two types: flattens, drops duplicate alternatives,
    /// absorbs `Never` and `Any`, and merges list with list and dictionary
    /// with dictionary.
    pub fn union2(a: &Ty, b: &Ty) -> (r: Ty)
        requires
            wf_ty(a@),
            wf_ty(b@),
        ensures
            r@ == union2_v(a@, b@),
            wf_ty(r@),
        decreases *a,
    {
        proof {
            lemma_union2_v_wf(a@, b@);
            lemma_container_at(a@);
            lemma_container_at(b@);
            lemma_ty_mirror(*a);
            lemma_ty_mirror(*b);
            lemma_wf_alts(a@.alts, 0);
        }
        if a.is_any() || b.is_any() {
            let r = Ty::any();
            return r;
        }
        if a.is_never() {
            let r = b.clone();
            proof {
                assert(union2_v(a@, b@) == b@);
            }
            return r;
        }
        if b.is_never() {
            let r = a.clone();
            proof {
                assert(union2_v(a@, b@) == a@);
            }
            return r;
        }
        let b_list = find_list(b);
        let b_dict = find_dict(b);
        let n = a.alternatives.len();
        let mut out: Vec<TyBasic> = Vec::new();
        for i in 0..n
            invariant
                n == a.alternatives.len(),
                a@.alts.len() == n,
                wf_ty(a@),
                wf_ty(b@),
                forall|j: int| 0 <= j < n ==> a@.alts[j] == basic_v(#[trigger] a.alternatives@[j]),
                forall|j: int| 0 <= j < n ==> wf_basic(#[trigger] a@.alts[j]),
                out@.len() == i,
                forall|j: int|
                    0 <= j < i ==> basic_v(#[trigger] out@[j]) == merge_one_v(a@.alts[j], b@),
                match b_list {
                    Option::Some(k) => k < b.alternatives@.len() && b@.has_list()
                        && b@.alts[k as int] is List && b@.list_at() == k,
                    Option::None => !b@.has_list(),
                },
                match b_dict {
                    Option::Some(k) => k < b.alternatives@.len() && b@.has_dict()
                        && b@.alts[k as int] is Dict && b@.dict_at() == k,
                    Option::None => !b@.has_dict(),
                },
                b@.has_list() ==> wf_ty(b@.list_elem()),
                b@.has_dict() ==> wf_ty(b@.dict_key()) && wf_ty(b@.dict_val()),
                b@.alts.len() == b.alternatives@.len(),
                forall|j: int|
                    0 <= j < b@.alts.len() ==> b@.alts[j] == basic_v(#[trigger] b.alternatives@[j]),
        {
            let m: TyBasic = match &a.alternatives[i] {
                TyBasic::List(e) => {
                    match b_list {
                        Option::Some(k) => {
                            let be = list_elem_at(b, k);
                            proof {
                                assert(decreases_to!(*a => a.alternatives@[i as int]));
                                assert(decreases_to!(
                                    a.alternatives@[i as int] =>
                                    a.alternatives@[i as int]->List_0));
                                assert(be@ == b@.list_elem());
                                assert(wf_ty(ty_v(*a.alternatives@[i as int]->List_0)));
                            }
                            let sub = Ty::union2(&**e, be);
                            TyBasic::List(Box::new(sub))
                        },
                        Option::None => {
                            let c = a.alternatives[i].clone();
                            c
                        },
                    }
                },
                TyBasic::Dict(k0, v0) => {
                    match b_dict {
                        Option::Some(k) => {
                            let (bk, bv) = dict_elems_at(b, k);
                            proof {
                                assert(decreases_to!(*a => a.alternatives@[i as int]));
                                assert(decreases_to!(
                                    a.alternatives@[i as int] =>
                                    a.alternatives@[i as int]->Dict_0));
                                assert(decreases_to!(
                                    a.alternatives@[i as int] =>
                                    a.alternatives@[i as int]->Dict_1));
                                assert(bk@ == b@.dict_key());
                                assert(bv@ == b@.dict_val());
                                assert(wf_ty(ty_v(*a.alternatives@[i as int]->Dict_0)));
                                assert(wf_ty(ty_v(*a.alternatives@[i as int]->Dict_1)));
                            }
                            let subk = Ty::union2(&**k0, bk);
                            let subv = Ty::union2(&**v0, bv);
                            TyBasic::Dict(Box::new(subk), Box::new(subv))
                        },
                        Option::None => {
                            let c = a.alternatives[i].clone();
                            c
                        },
                    }
                },
                _ => {
                    let c = a.alternatives[i].clone();
                    c
                },
            };
            proof {
                assert(basic_v(m) == merge_one_v(a@.alts[i as int], b@));
            }
            out.push(m);
        }
        // Append the right operand's alternatives that are not covered.
        let a_has_list = match find_list(a) {
            Option::Some(_) => true,
            Option::None => false,
        };
        let a_has_dict = match find_dict(a) {
            Option::Some(_) => true,
            Option::None => false,
        };
        let ghost ms = merge_side_v(a@.alts, b@, 0, Seq::empty());
        proof {
            lemma_merge_side(a@.alts, b@, 0, Seq::empty());
            lemma_alts_v(out@, 0, Seq::empty());
            assert forall|j: int|
                0 <= j < n implies alts_v(out@, 0, Seq::empty())[j] == ms[j] by {
                assert(alts_v(out@, 0, Seq::empty())[j] == basic_v(out@[j]));
                assert(basic_v(out@[j]) == merge_one_v(a@.alts[j], b@));
                assert(ms[j] == merge_one_v(a@.alts[j], b@));
            }
            assert(alts_v(out@, 0, Seq::empty()) =~= ms);
        }
        let bn = b.alternatives.len();
        for i in 0..bn
            invariant
                bn == b.alternatives.len(),
                b@.alts.len() == bn,
                wf_ty(a@),
                a_has_list == a@.has_list(),
                a_has_dict == a@.has_dict(),
                forall|j: int|
                    0 <= j < bn ==> b@.alts[j] == basic_v(#[trigger] b.alternatives@[j]),
                a@.alts.len() == a.alternatives@.len(),
                forall|j: int|
                    0 <= j < a@.alts.len() ==> a@.alts[j] == basic_v(
                        #[trigger] a.alternatives@[j],
                    ),
                add_uncovered_v(alts_v(out@, 0, Seq::empty()), b@.alts, a@, i as int)
                    == add_uncovered_v(ms, b@.alts, a@, 0),
        {
            let x = &b.alternatives[i];
            let is_covered = match x {
                TyBasic::List(_) => a_has_list,
                TyBasic::Dict(_, _) => a_has_dict,
                _ => false,
            } || contains_basic(&a.alternatives, x);
            proof {
                assert forall|j: int|
                    0 <= j < a@.alts.len() implies (alts_v(
                    a.alternatives@,
                    0,
                    Seq::empty(),
                )[j] == a@.alts[j]) by {}
                assert(alts_v(a.alternatives@, 0, Seq::empty()) =~= a@.alts);
                assert(is_covered == covered_v(a@, b@.alts[i as int]));
            }
            if !is_covered {
                let c = x.clone();
                proof {
                    lemma_alts_push(out@, c);
                }
                out.push(c);
            }
            proof {
                assert(add_uncovered_v(alts_v(out@, 0, Seq::empty()), b@.alts, a@, i + 1)
                    == add_uncovered_v(ms, b@.alts, a@, 0));
            }
        }
        let r = Ty { alternatives: out };
        proof {
            lemma_ty_mirror(r);
            assert(r@.alts == alts_v(out@, 0, Seq::empty()));
            assert(r@.alts == add_uncovered_v(ms, b@.alts, a@, 0));
            assert(r@ =~= union2_v(a@, b@));
        }
        r
    }

    /// The union of many types.
    pub fn unions(xs: &Vec<Ty>) -> (r: Ty)
        requires
            forall|i: int| 0 <= i < xs@.len() ==> wf_ty(ty_v(#[trigger] xs@[i])),
        ensures
            r@ == unions_v(tyseq_v(xs@), 0, never_v()),
            wf_ty(r@),
    {
        let mut acc = Ty::never();
        let n = xs.len();
        for i in 0..n
            invariant
                n == xs.len(),
                wf_ty(acc@),
                forall|j: int| 0 <= j < n ==> wf_ty(ty_v(#[trigger] xs@[j])),
                unions_v(tyseq_v(xs@), i as int, acc@) == unions_v(tyseq_v(xs@), 0, never_v()),
        {
            proof {
                assert(tyseq_v(xs@)[i as int] == ty_v(xs@[i as int]));
            }
            let acc2 = Ty::union2(&acc, &xs[i]);
            acc = acc2;
        }
        acc
    }
}

// ---------------------------------------------------------------------------
// Projection.
// ---------------------------------------------------------------------------

/// What `x[i]` is for one alternative, when the index is statically known:
/// a tuple projects the element, a list its element type, `Any` stays `Any`,
/// and any other shape is not tracked.
pub open spec fn indexed_basic_v(x: TyBasicV, i: int) -> TyV {
    match x {
        TyBasicV::Any => any_v(),
        TyBasicV::List(e) => e,
        TyBasicV::Tuple(ts) => if 0 <= i < ts.len() {
            ts[i]
        } else {
            never_v()
        },
        _ => any_v(),
    }
}

/// What `x[i]` is, alternative by alternative.
pub open spec fn indexed_v(t: TyV, i: int) -> TyV {
    unions_v(Seq::new(t.alts.len(), |j: int| indexed_basic_v(t.alts[j], i)), 0, never_v())
}

impl Ty {
    /// The type of `self[i]` for a statically known index `i`: tuples
    /// project, lists yield their element, everything else is untracked.
    pub fn indexed(&self, i: usize) -> (r: Ty)
        requires
            wf_ty(self@),
        ensures
            r@ == indexed_v(self@, i as int),
            wf_ty(r@),
    {
        proof {
            lemma_ty_mirror(*self);
            lemma_wf_alts(self@.alts, 0);
        }
        let n = self.alternatives.len();
        let mut parts: Vec<Ty> = Vec::new();
        let ghost goal = Seq::new(self@.alts.len(), |j: int| indexed_basic_v(self@.alts[j], i as int));
        for k in 0..n
            invariant
                n == self.alternatives.len(),
                self@.alts.len() == n,
                goal == Seq::new(
                    self@.alts.len(),
                    |j: int| indexed_basic_v(self@.alts[j], i as int),
                ),
                forall|j: int|
                    0 <= j < n ==> self@.alts[j] == basic_v(#[trigger] self.alternatives@[j]),
                forall|j: int| 0 <= j < n ==> wf_basic(#[trigger] self@.alts[j]),
                parts@.len() == k,
                forall|j: int| 0 <= j < k ==> ty_v(#[trigger] parts@[j]) == goal[j],
                forall|j: int| 0 <= j < k ==> wf_ty(ty_v(#[trigger] parts@[j])),
        {
            let p: Ty = match &self.alternatives[k] {
                TyBasic::Any => Ty::any(),
                TyBasic::List(e) => (**e).clone(),
                TyBasic::Tuple(ts) => {
                    proof {
                        lemma_tuple_mirror(ts@);
                        if i < ts@.len() {
                            lemma_wf_tys(tys_v(ts@, 0, Seq::empty()), 0);
                        }
                    }
                    if i < ts.len() {
                        ts[i].clone()
                    } else {
                        Ty::never()
                    }
                },
                _ => Ty::any(),
            };
            proof {
                assert(ty_v(p) == indexed_basic_v(self@.alts[k as int], i as int));
                assert(goal[k as int] == indexed_basic_v(self@.alts[k as int], i as int));
            }
            parts.push(p);
        }
        proof {
            assert forall|j: int| 0 <= j < n implies tyseq_v(parts@)[j] == goal[j] by {
                assert(tyseq_v(parts@)[j] == ty_v(parts@[j]));
            }
            assert(tyseq_v(parts@) =~= goal);
            assert forall|j: int| 0 <= j < parts@.len() implies wf_ty(ty_v(#[trigger] parts@[j])) by {}
        }
        let r = Ty::unions(&parts);
        r
    }
}

// ---------------------------------------------------------------------------
// Rendering, for diagnostics only.
// ---------------------------------------------------------------------------

impl Ty {
    /// The type as text, for diagnostics: alternatives joined by `" | "`,
    /// the empty union shown as `typing.Never`.
    pub fn render(&self) -> String
        decreases *self,
    {
        if self.alternatives.len() == 0 {
            return new_string("typing.Never");
        }
        let mut s = new_string("");
        let n = self.alternatives.len();
        for i in 0..n
            invariant
                n == self.alternatives.len(),
        {
            if i != 0 {
                s.append(" | ");
            }
            let part = render_basic(&self.alternatives[i]);
            s.append(part.as_str());
        }
        s
    }
}

/// One alternative as text.
pub fn render_basic(b: &TyBasic) -> String
    decreases *b,
{
    match b {
        TyBasic::Any => new_string("typing.Any"),
        TyBasic::Name(n) => {
            let mut s = new_string("\"");
            s.append(n.as_str());
            s.append("\"");
            s
        },
        TyBasic::StarlarkValue(sv) => {
            if sv.name == new_string("string") {
                new_string("str")
            } else if sv.name == new_string("NoneType") {
                new_string("None")
            } else {
                sv.name.clone()
            }
        },
        TyBasic::List(t) => {
            let mut s = new_string("list[");
            let part = t.render();
            s.append(part.as_str());
            s.append("]");
            s
        },
        TyBasic::Dict(k, v) => {
            let mut s = new_string("dict[");
            let pk = k.render();
            s.append(pk.as_str());
            s.append(", ");
            let pv = v.render();
            s.append(pv.as_str());
            s.append("]");
            s
        },
        TyBasic::Tuple(ts) => {
            let mut s = new_string("(");
            let n = ts.len();
            for i in 0..n
                invariant
                    n == ts.len(),
                    *b == TyBasic::Tuple(*ts),
            {
                if i != 0 {
                    s.append(", ");
                }
                proof {
                    assert(decreases_to!(*b => (*b)->Tuple_0));
                    assert((*b)->Tuple_0 == *ts);
                    assert(decreases_to!(*ts => ts@));
                    assert(decreases_to!(ts@ => ts@[i as int]));
                }
                let part = ts[i].render();
                s.append(part.as_str());
            }
            s.append(")");
            s
        },
        TyBasic::Iter(t) => {
            let mut s = new_string("typing.Iterable[");
            let part = t.render();
            s.append(part.as_str());
            s.append("]");
            s
        },
        TyBasic::Custom(TyCustom::Function(_)) => new_string("\"function\""),
    }
}

impl TyFunction {
    /// A signature from its parameters and result type.
    pub fn new(params: Vec<Param>, result: Ty) -> (r: TyFunction)
        ensures
            r@ == (TyFunctionV { params: params_v(params@, 0, Seq::empty()), result: result@ }),
    {
        let ghost ps = params@;
        let ghost rv = result@;
        let r = TyFunction { params, result: Box::new(result) };
        proof {
            assert(r@ =~= (TyFunctionV { params: params_v(ps, 0, Seq::empty()), result: rv }));
        }
        r
    }
}

} // verus!
