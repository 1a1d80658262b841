//! Collecting, per binding slot, every expression that may flow into it.
//!
//! One walk over the whole module records, for each slot, the list of
//! contributions (direct assignments, destructuring projections, iteration,
//! augmented assignment, index writes and the recognised list mutations),
//! the explicit type annotations, the floating expressions that must be
//! checked anyway, and the `return` checks. The walk is restated in ghost
//! form ([`CollectSt`] and the `.._v` functions around [`collect_v`]), and
//! the collector's contract pins its result to that restatement.

use vstd::prelude::*;

use crate::codemap::Span;
use crate::error::Approximation;
use crate::error::InternalError;
use crate::syntax::ArgKind;
use crate::syntax::ArgNode;
use crate::syntax::LoadArg;
use crate::syntax::AssignOp;
use crate::syntax::AstModule;
use crate::syntax::CompClause;
use crate::syntax::DefParam;
use crate::syntax::DefParamKind;
use crate::syntax::ExprKind;
use crate::syntax::ForClause;
use crate::syntax::IdentRef;
use crate::syntax::StmtKind;
use crate::syntax::TargetKind;
use crate::ty::new_string;
use crate::ty::params_v;
use crate::ty::ty_v;
use crate::ty::wf_ty;
use crate::ty::Param;
use crate::ty::Ty;

verus! {

// ---------------------------------------------------------------------------
// Interface.
// ---------------------------------------------------------------------------

/// The exported surface of one checked module: an immutable name-to-type
/// table, consumed when another module `load`s this one.
pub struct Interface {
    /// The exported names and their final inferred types. The field is
    /// visible because the contracts of whole-module checking speak of it;
    /// treat the interface as immutable once built, and build it through
    /// [`Interface::new`], which demands the unique names `interface_wf`
    /// then guarantees.
    pub bindings: Vec<(String, Ty)>,
}

/// The exported names, in order.
pub open spec fn interface_names_v(rows: Seq<(String, Ty)>) -> Seq<Seq<char>> {
    Seq::new(rows.len(), |j: int| rows[j].0@)
}

/// A well-formed interface: every type in normal form, and every exported
/// name unique — the invariant of a name-keyed map — so a first-match
/// lookup is the lookup.
pub open spec fn interface_wf(i: &Interface) -> bool {
    &&& (forall|j: int| 0 <= j < i.bindings@.len() ==> wf_ty(ty_v((#[trigger] i.bindings@[j]).1)))
    &&& (forall|j: int, k: int|
        0 <= j < k < i.bindings@.len() ==> (#[trigger] i.bindings@[j]).0@ != (
        #[trigger] i.bindings@[k]).0@)
}

/// The first exported entry for `name` from row `j` on.
pub open spec fn interface_lookup_v(rows: Seq<(String, Ty)>, j: int, name: Seq<char>) -> Option<
    crate::ty::TyV,
>
    decreases rows.len() - j,
{
    if j < 0 || j >= rows.len() {
        Option::None
    } else if rows[j].0@ == name {
        Option::Some(ty_v(rows[j].1))
    } else {
        interface_lookup_v(rows, j + 1, name)
    }
}

impl Interface {
    /// An empty interface, with no bindings.
    pub fn empty() -> (r: Interface)
        ensures
            r.bindings@.len() == 0,
            interface_wf(&r),
    {
        Interface { bindings: Vec::new() }
    }

    /// A new interface with the given bindings; one entry per name.
    pub fn new(bindings: Vec<(String, Ty)>) -> (r: Interface)
        requires
            forall|j: int| 0 <= j < bindings@.len() ==> wf_ty(ty_v((#[trigger] bindings@[j]).1)),
            forall|j: int, k: int|
                0 <= j < k < bindings@.len() ==> (#[trigger] bindings@[j]).0@ != (
                #[trigger] bindings@[k]).0@,
        ensures
            interface_wf(&r),
            r.bindings@ == bindings@,
    {
        Interface { bindings }
    }

    /// The type exported under `name`, if any.
    pub fn get(&self, name: &String) -> (r: Option<&Ty>)
        requires
            interface_wf(self),
        ensures
            match r {
                Option::Some(t) => interface_lookup_v(self.bindings@, 0, name@) == Option::Some(t@)
                    && wf_ty(t@),
                Option::None => interface_lookup_v(self.bindings@, 0, name@) is None,
            },
    {
        let n = self.bindings.len();
        for j in 0..n
            invariant
                n == self.bindings@.len(),
                interface_wf(self),
                interface_lookup_v(self.bindings@, j as int, name@) == interface_lookup_v(
                    self.bindings@,
                    0,
                    name@,
                ),
        {
            if self.bindings[j].0 == *name {
                return Option::Some(&self.bindings[j].1);
            }
        }
        Option::None
    }
}

// ---------------------------------------------------------------------------
// Contributions.
// ---------------------------------------------------------------------------

/// One recorded contribution flowing into a binding. Contributions form an
/// arena of their own; a contribution refers to earlier contributions by
/// index.
pub enum BindExpr {
    /// A plain expression was assigned.
    Expr(usize),
    /// The element at a fixed position of another contribution, from tuple
    /// destructuring.
    GetIndex(usize, usize),
    /// The iteration element of another contribution, from a `for` target.
    Iter(usize),
    /// `target OP= expr`: the target and the right-hand side.
    AssignModify(usize, AssignOp, usize),
    /// `binding[index] = value`: the index expression and the written
    /// contribution.
    SetIndex(usize, usize, usize),
    /// A recognised `binding.append(x)` or `binding.insert(i, x)`.
    ListAppend(usize, usize),
    /// A recognised `binding.extend(xs)`.
    ListExtend(usize, usize),
}

/// Everything the collector found, read-only afterwards.
pub struct Bindings {
    /// The contribution arena.
    pub bind_exprs: Vec<BindExpr>,
    /// Per binding slot, the indices of its contributions.
    pub expressions: Vec<Vec<usize>>,
    /// Per binding slot, its explicitly declared type, where one was given.
    pub types: Vec<Option<Ty>>,
    /// Expressions that feed no binding but must be checked.
    pub check: Vec<usize>,
    /// `return` and annotation checks: position, the checked expression (or
    /// none for a bare `return`), and the required type.
    pub check_type: Vec<(Span, Option<usize>, Ty)>,
}

/// Every declared or required type the collector recorded is in normal form.
pub open spec fn bindings_tys_wf(b: &Bindings) -> bool {
    &&& (forall|i: int|
        0 <= i < b.types@.len() && (#[trigger] b.types@[i]) is Some ==> wf_ty(
            ty_v(b.types@[i]->0),
        ))
    &&& (forall|i: int| 0 <= i < b.check_type@.len() ==> wf_ty(ty_v((#[trigger] b.check_type@[i]).2)))
}

/// The collector's result: the bindings plus the approximations it noted.
pub struct BindingsCollect {
    /// What flows where.
    pub bindings: Bindings,
    /// The constructs the collector deliberately did not model.
    pub approximations: Vec<Approximation>,
}

impl BindingsCollect {
    /// Walk the whole module once and collect all the assignments to
    /// variables. Fails only on malformed input: an assignment to an
    /// identifier that scope resolution never resolved.
    ///
    /// The contract pins the result exactly: the tables equal the ghost walk
    /// [`collect_v`], which restates, statement kind by statement kind, what
    /// is recorded where.
    pub fn collect(m: &AstModule) -> (r: Result<BindingsCollect, InternalError>)
        requires
            crate::syntax::module_wf(m),
        ensures
            match r {
                Result::Ok(out) => bindings_tys_wf(&out.bindings)
                    && out.bindings.expressions@.len() == m.n_bindings
                    && out.bindings.types@.len() == m.n_bindings && collect_v(m)
                    == CollectOut::Done(st_of(out)),
                Result::Err(_) => collect_v(m) is Fail,
            },
    {
        let mut out = BindingsCollect {
            bindings: Bindings {
                bind_exprs: Vec::new(),
                expressions: Vec::new(),
                types: Vec::new(),
                check: Vec::new(),
                check_type: Vec::new(),
            },
            approximations: Vec::new(),
        };
        let nb = m.n_bindings;
        for z in 0..nb
            invariant
                out.bindings.expressions@.len() == z,
                out.bindings.types@.len() == z,
                forall|i: int|
                    0 <= i < out.bindings.types@.len() ==> (#[trigger] out.bindings.types@[i])
                        is None,
                forall|i: int|
                    0 <= i < out.bindings.expressions@.len() ==> (
                    #[trigger] out.bindings.expressions@[i])@ == Seq::<usize>::empty(),
                out.bindings.bind_exprs@.len() == 0,
                out.bindings.check@.len() == 0,
                out.bindings.check_type@.len() == 0,
                out.approximations@.len() == 0,
        {
            out.bindings.expressions.push(Vec::new());
            out.bindings.types.push(Option::None);
        }
        proof {
            assert(st_of(out) =~~= init_st_v(m.n_bindings as nat));
        }
        let nt = m.top.len();
        let any = Ty::any();
        for z in 0..nt
            invariant
                nt == m.top@.len(),
                crate::syntax::module_wf(m),
                wf_ty(any@),
                any@ == crate::ty::any_v(),
                bindings_tys_wf(&out.bindings),
                out.bindings.expressions@.len() == m.n_bindings,
                out.bindings.types@.len() == m.n_bindings,
                top_scan_v(m, z as int, st_of(out)) == collect_v(m),
        {
            let s = m.top[z];
            let ghost sti = st_of(out);
            if s < m.stmts.len() {
                match visit_stmt(m, s, &any, &mut out) {
                    Result::Ok(()) => {
                        proof {
                            assert(top_scan_v(m, z as int, sti) == top_scan_v(
                                m,
                                z + 1,
                                st_of(out),
                            ));
                        }
                    },
                    Result::Err(e) => {
                        proof {
                            assert(top_scan_v(m, z as int, sti) == CollectOut::Fail(st_of(out)));
                        }
                        return Result::Err(e);
                    },
                }
            }
        }
        Result::Ok(out)
    }
}

/// Record one contribution in the arena, returning its index.
fn push_bind(out: &mut BindingsCollect, be: BindExpr) -> (r: usize)
    requires
        bindings_tys_wf(&old(out).bindings),
    ensures
        bindings_tys_wf(&final(out).bindings),
        final(out).bindings.expressions@.len() == old(out).bindings.expressions@.len(),
        final(out).bindings.types@.len() == old(out).bindings.types@.len(),
        r == old(out).bindings.bind_exprs@.len(),
        st_of(*final(out)) == push_bind_v(st_of(*old(out)), be),
{
    let r = out.bindings.bind_exprs.len();
    out.bindings.bind_exprs.push(be);
    proof {
        assert(st_of(*out) =~~= push_bind_v(st_of(*old(out)), be));
    }
    r
}

/// Record a contribution against every binding reachable through the
/// target: identifiers directly, tuple targets element-wise through a
/// projection, index writes through the written binding; attribute targets
/// are out of the model and noted as approximations.
fn assign_target(m: &AstModule, t: usize, rhs: usize, out: &mut BindingsCollect) -> (r: Result<
    (),
    InternalError,
>)
    requires
        crate::syntax::module_wf(m),
        t < m.targets@.len(),
        bindings_tys_wf(&old(out).bindings),
        old(out).bindings.expressions@.len() == m.n_bindings,
        old(out).bindings.types@.len() == m.n_bindings,
    ensures
        bindings_tys_wf(&final(out).bindings),
        final(out).bindings.expressions@.len() == m.n_bindings,
        final(out).bindings.types@.len() == m.n_bindings,
        match r {
            Result::Ok(()) => assign_target_v(m, t as int, rhs, st_of(*old(out)))
                == CollectOut::Done(st_of(*final(out))),
            Result::Err(_) => assign_target_v(m, t as int, rhs, st_of(*old(out)))
                == CollectOut::Fail(st_of(*final(out))),
        },
    decreases t,
{
    let ghost st0 = st_of(*old(out));
    match &m.targets[t].kind {
        TargetKind::Identifier(r) => {
            match r {
                IdentRef::Slot(b) => {
                    if *b < out.bindings.expressions.len() {
                        push_row(&mut out.bindings.expressions, *b, rhs);
                        proof {
                            assert(st_of(*out) =~~= push_row_v(st0, *b, rhs));
                        }
                    }
                    Result::Ok(())
                },
                _ => Result::Err(
                    InternalError {
                        span: m.targets[t].span,
                        message: new_string("assignment to an unresolved identifier"),
                    },
                ),
            }
        },
        TargetKind::Tuple(ts) => {
            let n = ts.len();
            proof {
                assert(assign_target_v(m, t as int, rhs, st0) == assign_tuple_v(
                    m,
                    t as int,
                    ts@,
                    0,
                    rhs,
                    st0,
                ));
            }
            for i in 0..n
                invariant
                    n == ts@.len(),
                    crate::syntax::module_wf(m),
                    t < m.targets@.len(),
                    m.targets@[t as int].kind == TargetKind::Tuple(*ts),
                    bindings_tys_wf(&out.bindings),
                    out.bindings.expressions@.len() == m.n_bindings,
                    out.bindings.types@.len() == m.n_bindings,
                    st0 == st_of(*old(out)),
                    assign_target_v(m, t as int, rhs, st0) == assign_tuple_v(
                        m,
                        t as int,
                        ts@,
                        i as int,
                        rhs,
                        st_of(*out),
                    ),
            {
                proof {
                    crate::syntax::lemma_target_wf_cases(m, t as int);
                    let ghost k = m.targets@[t as int].kind;
                    assert(k->Tuple_0 == *ts);
                    assert(ts@[i as int] < t);
                }
                let ghost sti = st_of(*out);
                let proj = push_bind(out, BindExpr::GetIndex(i, rhs));
                let sub = ts[i];
                match assign_target(m, sub, proj, out) {
                    Result::Ok(()) => {
                        proof {
                            assert(assign_tuple_v(m, t as int, ts@, i as int, rhs, sti)
                                == assign_tuple_v(m, t as int, ts@, i + 1, rhs, st_of(*out)));
                        }
                    },
                    Result::Err(e) => {
                        proof {
                            assert(assign_tuple_v(m, t as int, ts@, i as int, rhs, sti)
                                == CollectOut::Fail(st_of(*out)));
                        }
                        return Result::Err(e);
                    },
                }
            }
            Result::Ok(())
        },
        TargetKind::Index(a, b) => {
            let mut recorded = false;
            if *a < m.exprs.len() {
                match &m.exprs[*a].kind {
                    ExprKind::Identifier(IdentRef::Slot(id)) => {
                        proof {
                            assert(target_index_base_v(m, *a) == Option::Some(*id));
                        }
                        let be = push_bind(out, BindExpr::SetIndex(*id, *b, rhs));
                        let ghost st1 = st_of(*out);
                        if *id < out.bindings.expressions.len() {
                            push_row(&mut out.bindings.expressions, *id, be);
                            proof {
                                assert(st_of(*out) =~~= push_row_v(st1, *id, be));
                            }
                        }
                        recorded = true;
                    },
                    _ => {
                        proof {
                            assert(target_index_base_v(m, *a) is None);
                        }
                    },
                }
            }
            if !recorded {
                out.approximations.push(
                    Approximation::new("Underapproximation", "a.b[x] = .. not handled"),
                );
                proof {
                    assert(st_of(*out) =~~= push_approx_v(
                        st0,
                        "Underapproximation"@,
                        "a.b[x] = .. not handled"@,
                    ));
                }
            }
            Result::Ok(())
        },
        TargetKind::Dot(_, _) => {
            out.approximations.push(
                Approximation::new("Underapproximation", "a.b = .. not handled"),
            );
            proof {
                assert(st_of(*out) =~~= push_approx_v(
                    st0,
                    "Underapproximation"@,
                    "a.b = .. not handled"@,
                ));
            }
            Result::Ok(())
        },
    }
}

/// Append an entry to one row of a per-binding table, leaving every other
/// row as it was.
fn push_row(rows: &mut Vec<Vec<usize>>, at: usize, value: usize)
    requires
        at < old(rows)@.len(),
    ensures
        final(rows)@.len() == old(rows)@.len(),
        final(rows)@[at as int]@ == old(rows)@[at as int]@.push(value as usize),
        forall|i: int|
            0 <= i < old(rows)@.len() && i != at ==> (#[trigger] final(rows)@[i])@ == old(
                rows,
            )@[i]@,
{
    let src = &rows[at];
    let n = src.len();
    let mut row: Vec<usize> = Vec::new();
    for q in 0..n
        invariant
            n == rows@[at as int]@.len(),
            at < rows@.len(),
            row@.len() == q,
            forall|z: int| 0 <= z < q ==> row@[z] == rows@[at as int]@[z],
    {
        let v = rows[at][q];
        row.push(v);
    }
    row.push(value);
    proof {
        assert(row@ =~= old(rows)@[at as int]@.push(value as usize));
    }
    rows.set(at, row);
}

// ---------------------------------------------------------------------------
// The walk, restated in ghost form. The contracts of the collector pin its
// result to these functions, statement rule by statement rule.
// ---------------------------------------------------------------------------

/// The collector's whole state, in ghost form: the contribution arena, the
/// per-slot contribution rows, the declared types (as views), the floating
/// checks, the typed checks and the approximations (category and message).
#[verifier::ext_equal]
pub struct CollectSt {
    /// Mirror of [`Bindings::bind_exprs`].
    pub bind_exprs: Seq<BindExpr>,
    /// Mirror of [`Bindings::expressions`].
    pub expressions: Seq<Seq<usize>>,
    /// Mirror of [`Bindings::types`].
    pub types: Seq<Option<crate::ty::TyV>>,
    /// Mirror of [`Bindings::check`].
    pub check: Seq<usize>,
    /// Mirror of [`Bindings::check_type`].
    pub check_type: Seq<(Span, Option<usize>, crate::ty::TyV)>,
    /// Mirror of [`BindingsCollect::approximations`].
    pub approx: Seq<(Seq<char>, Seq<char>)>,
}

/// A walk step's outcome: the new state, or failure carrying the state the
/// walk had reached (the collector fails only on an unresolved assignment
/// target).
#[verifier::ext_equal]
pub enum CollectOut {
    /// The step succeeded.
    Done(CollectSt),
    /// The step hit an unresolved target.
    Fail(CollectSt),
}

/// The rows of a per-binding table, as sequences.
pub open spec fn rows_v(s: Seq<Vec<usize>>) -> Seq<Seq<usize>> {
    Seq::new(s.len(), |i: int| s[i]@)
}

/// The declared-type table, as views.
pub open spec fn opt_tys_v(s: Seq<Option<Ty>>) -> Seq<Option<crate::ty::TyV>> {
    Seq::new(
        s.len(),
        |i: int|
            match s[i] {
                Option::Some(t) => Option::Some(ty_v(t)),
                Option::None => Option::None,
            },
    )
}

/// The typed-check table, as views.
pub open spec fn checks_v(s: Seq<(Span, Option<usize>, Ty)>) -> Seq<
    (Span, Option<usize>, crate::ty::TyV),
> {
    Seq::new(s.len(), |i: int| (s[i].0, s[i].1, ty_v(s[i].2)))
}

/// The approximations, as category and message views.
pub open spec fn approx_v(s: Seq<Approximation>) -> Seq<(Seq<char>, Seq<char>)> {
    Seq::new(s.len(), |i: int| (s[i].category@, s[i].message@))
}

/// The ghost state a collector value holds.
pub open spec fn st_of(out: BindingsCollect) -> CollectSt {
    CollectSt {
        bind_exprs: out.bindings.bind_exprs@,
        expressions: rows_v(out.bindings.expressions@),
        types: opt_tys_v(out.bindings.types@),
        check: out.bindings.check@,
        check_type: checks_v(out.bindings.check_type@),
        approx: approx_v(out.approximations@),
    }
}

/// The state before any statement: one empty contribution row and no
/// declared type per binding slot, nothing else.
pub open spec fn init_st_v(n: nat) -> CollectSt {
    CollectSt {
        bind_exprs: Seq::empty(),
        expressions: Seq::new(n, |i: int| Seq::empty()),
        types: Seq::new(n, |i: int| Option::None),
        check: Seq::empty(),
        check_type: Seq::empty(),
        approx: Seq::empty(),
    }
}

/// One contribution recorded in the arena.
pub open spec fn push_bind_v(st: CollectSt, be: BindExpr) -> CollectSt {
    CollectSt { bind_exprs: st.bind_exprs.push(be), ..st }
}

/// One contribution index appended to one slot's row.
pub open spec fn push_row_v(st: CollectSt, at: usize, id: usize) -> CollectSt {
    CollectSt {
        expressions: st.expressions.update(at as int, st.expressions[at as int].push(id)),
        ..st
    }
}

/// One slot's declared type set.
pub open spec fn set_type_v(st: CollectSt, b: usize, t: crate::ty::TyV) -> CollectSt {
    CollectSt { types: st.types.update(b as int, Option::Some(t)), ..st }
}

/// One floating check recorded.
pub open spec fn push_check_v(st: CollectSt, e: usize) -> CollectSt {
    CollectSt { check: st.check.push(e), ..st }
}

/// One typed check recorded.
pub open spec fn push_check_type_v(
    st: CollectSt,
    sp: Span,
    e: Option<usize>,
    t: crate::ty::TyV,
) -> CollectSt {
    CollectSt { check_type: st.check_type.push((sp, e, t)), ..st }
}

/// One approximation noted.
pub open spec fn push_approx_v(st: CollectSt, cat: Seq<char>, msg: Seq<char>) -> CollectSt {
    CollectSt { approx: st.approx.push((cat, msg)), ..st }
}

/// The value expression of a call argument.
pub open spec fn arg_expr_v(a: ArgNode) -> usize {
    match a.kind {
        ArgKind::Pos(e) => e,
        ArgKind::Named(_, e) => e,
        ArgKind::Args(e) => e,
        ArgKind::Kwargs(e) => e,
    }
}

/// The slot an index-assignment base names, where the base is a plain
/// resolved identifier.
pub open spec fn target_index_base_v(m: &AstModule, a: usize) -> Option<usize> {
    if (a as int) < m.exprs@.len() {
        match m.exprs@[a as int].kind {
            ExprKind::Identifier(IdentRef::Slot(id)) => Option::Some(id),
            _ => Option::None,
        }
    } else {
        Option::None
    }
}

/// What assigning contribution `rhs` through target `t` records: identifiers
/// feed their slot's row, tuple targets project element-wise, an index write
/// on a plain identifier feeds the written slot through a `SetIndex`
/// contribution, dotted and unrecognised index targets note one
/// approximation, and an unresolved identifier fails the walk.
pub open spec fn assign_target_v(m: &AstModule, t: int, rhs: usize, st: CollectSt) -> CollectOut
    decreases t, 1int, 0int,
{
    if t < 0 || t >= m.targets@.len() {
        CollectOut::Done(st)
    } else {
        match m.targets@[t].kind {
            TargetKind::Identifier(r) => match r {
                IdentRef::Slot(b) => CollectOut::Done(
                    if (b as int) < st.expressions.len() {
                        push_row_v(st, b, rhs)
                    } else {
                        st
                    },
                ),
                _ => CollectOut::Fail(st),
            },
            TargetKind::Tuple(ts) => assign_tuple_v(m, t, ts@, 0, rhs, st),
            TargetKind::Index(a, b) => match target_index_base_v(m, a) {
                Option::Some(id) => {
                    let be = st.bind_exprs.len() as usize;
                    let st1 = push_bind_v(st, BindExpr::SetIndex(id, b, rhs));
                    CollectOut::Done(
                        if (id as int) < st1.expressions.len() {
                            push_row_v(st1, id, be)
                        } else {
                            st1
                        },
                    )
                },
                Option::None => CollectOut::Done(
                    push_approx_v(st, "Underapproximation"@, "a.b[x] = .. not handled"@),
                ),
            },
            TargetKind::Dot(_, _) => CollectOut::Done(
                push_approx_v(st, "Underapproximation"@, "a.b = .. not handled"@),
            ),
        }
    }
}

/// The sub-targets of a tuple target, each receiving a fresh positional
/// projection of `rhs`, in order.
pub open spec fn assign_tuple_v(
    m: &AstModule,
    t: int,
    ts: Seq<usize>,
    i: int,
    rhs: usize,
    st: CollectSt,
) -> CollectOut
    decreases t, 0int, ts.len() - i,
{
    if i < 0 || i >= ts.len() {
        CollectOut::Done(st)
    } else {
        let proj = st.bind_exprs.len() as usize;
        let st1 = push_bind_v(st, BindExpr::GetIndex(i as usize, rhs));
        if (ts[i] as int) < t {
            match assign_target_v(m, ts[i] as int, proj, st1) {
                CollectOut::Done(st2) => assign_tuple_v(m, t, ts, i + 1, rhs, st2),
                CollectOut::Fail(f) => CollectOut::Fail(f),
            }
        } else {
            CollectOut::Fail(st1)
        }
    }
}

/// What one expression registers: comprehension `for` clauses bind their
/// variable to the iteration element of their source; everything else only
/// walks its children.
pub open spec fn visit_expr_v(m: &AstModule, e: int, st: CollectSt) -> CollectSt
    decreases e, 2int, 0int,
{
    if e < 0 || e >= m.exprs@.len() {
        st
    } else {
        match m.exprs@[e].kind {
            ExprKind::Tuple(xs) => exprs_scan_v(m, e, xs@, 0, st),
            ExprKind::List(xs) => exprs_scan_v(m, e, xs@, 0, st),
            ExprKind::Dot(a, _) => if (a as int) < e {
                visit_expr_v(m, a as int, st)
            } else {
                st
            },
            ExprKind::Call(f, args) => {
                let st1 = if (f as int) < e {
                    visit_expr_v(m, f as int, st)
                } else {
                    st
                };
                args_scan_v(m, e, args@, 0, st1)
            },
            ExprKind::Index(a, b) => {
                let st1 = if (a as int) < e {
                    visit_expr_v(m, a as int, st)
                } else {
                    st
                };
                if (b as int) < e {
                    visit_expr_v(m, b as int, st1)
                } else {
                    st1
                }
            },
            ExprKind::Index2(a, b, c) => {
                let st1 = if (a as int) < e {
                    visit_expr_v(m, a as int, st)
                } else {
                    st
                };
                let st2 = if (b as int) < e {
                    visit_expr_v(m, b as int, st1)
                } else {
                    st1
                };
                if (c as int) < e {
                    visit_expr_v(m, c as int, st2)
                } else {
                    st2
                }
            },
            ExprKind::Slice(a, b, c, d) => {
                let st1 = if (a as int) < e {
                    visit_expr_v(m, a as int, st)
                } else {
                    st
                };
                let st2 = opt_visit_v(m, e, b, st1);
                let st3 = opt_visit_v(m, e, c, st2);
                opt_visit_v(m, e, d, st3)
            },
            ExprKind::Not(a) => if (a as int) < e {
                visit_expr_v(m, a as int, st)
            } else {
                st
            },
            ExprKind::Minus(a) => if (a as int) < e {
                visit_expr_v(m, a as int, st)
            } else {
                st
            },
            ExprKind::Plus(a) => if (a as int) < e {
                visit_expr_v(m, a as int, st)
            } else {
                st
            },
            ExprKind::BitNot(a) => if (a as int) < e {
                visit_expr_v(m, a as int, st)
            } else {
                st
            },
            ExprKind::Op(a, _, b) => {
                let st1 = if (a as int) < e {
                    visit_expr_v(m, a as int, st)
                } else {
                    st
                };
                if (b as int) < e {
                    visit_expr_v(m, b as int, st1)
                } else {
                    st1
                }
            },
            ExprKind::IfExpr(a, b, c) => {
                let st1 = if (a as int) < e {
                    visit_expr_v(m, a as int, st)
                } else {
                    st
                };
                let st2 = if (b as int) < e {
                    visit_expr_v(m, b as int, st1)
                } else {
                    st1
                };
                if (c as int) < e {
                    visit_expr_v(m, c as int, st2)
                } else {
                    st2
                }
            },
            ExprKind::Dict(kvs) => dict_scan_v(m, e, kvs@, 0, st),
            ExprKind::ListComprehension(head, for1, clauses) => {
                let st1 = if (head as int) < e {
                    visit_expr_v(m, head as int, st)
                } else {
                    st
                };
                let st2 = bind_for_v(m, for1, st1);
                clauses_scan_v(m, e, clauses@, 0, st2)
            },
            ExprKind::DictComprehension(kx, vx, for1, clauses) => {
                let st1 = if (kx as int) < e {
                    visit_expr_v(m, kx as int, st)
                } else {
                    st
                };
                let st2 = if (vx as int) < e {
                    visit_expr_v(m, vx as int, st1)
                } else {
                    st1
                };
                let st3 = bind_for_v(m, for1, st2);
                clauses_scan_v(m, e, clauses@, 0, st3)
            },
            _ => st,
        }
    }
}

/// An optional slice bound's walk.
pub open spec fn opt_visit_v(m: &AstModule, e: int, x: Option<usize>, st: CollectSt) -> CollectSt
    decreases e, 1int, 0int,
{
    match x {
        Option::Some(a) => if (a as int) < e {
            visit_expr_v(m, a as int, st)
        } else {
            st
        },
        Option::None => st,
    }
}

/// The children of a tuple or list expression, walked in order.
pub open spec fn exprs_scan_v(
    m: &AstModule,
    e: int,
    xs: Seq<usize>,
    i: int,
    st: CollectSt,
) -> CollectSt
    decreases e, 1int, xs.len() - i,
{
    if i < 0 || i >= xs.len() {
        st
    } else {
        let st1 = if (xs[i] as int) < e {
            visit_expr_v(m, xs[i] as int, st)
        } else {
            st
        };
        exprs_scan_v(m, e, xs, i + 1, st1)
    }
}

/// The argument values of a call, walked in order.
pub open spec fn args_scan_v(
    m: &AstModule,
    e: int,
    args: Seq<ArgNode>,
    i: int,
    st: CollectSt,
) -> CollectSt
    decreases e, 1int, args.len() - i,
{
    if i < 0 || i >= args.len() {
        st
    } else {
        let a = arg_expr_v(args[i]);
        let st1 = if (a as int) < e {
            visit_expr_v(m, a as int, st)
        } else {
            st
        };
        args_scan_v(m, e, args, i + 1, st1)
    }
}

/// The keys and values of a dictionary literal, walked in order.
pub open spec fn dict_scan_v(
    m: &AstModule,
    e: int,
    kvs: Seq<(usize, usize)>,
    i: int,
    st: CollectSt,
) -> CollectSt
    decreases e, 1int, kvs.len() - i,
{
    if i < 0 || i >= kvs.len() {
        st
    } else {
        let st1 = if (kvs[i].0 as int) < e {
            visit_expr_v(m, kvs[i].0 as int, st)
        } else {
            st
        };
        let st2 = if (kvs[i].1 as int) < e {
            visit_expr_v(m, kvs[i].1 as int, st1)
        } else {
            st1
        };
        dict_scan_v(m, e, kvs, i + 1, st2)
    }
}

/// One comprehension `for` clause: the source expression becomes a
/// contribution, its iteration element another, and the clause variable is
/// assigned the latter; an unresolved clause variable degrades to an
/// approximation.
pub open spec fn bind_for_v(m: &AstModule, c: ForClause, st: CollectSt) -> CollectSt {
    let src = st.bind_exprs.len() as usize;
    let st1 = push_bind_v(st, BindExpr::Expr(c.over));
    let be = st1.bind_exprs.len() as usize;
    let st2 = push_bind_v(st1, BindExpr::Iter(src));
    if (c.var as int) < m.targets@.len() {
        match assign_target_v(m, c.var as int, be, st2) {
            CollectOut::Done(st3) => st3,
            CollectOut::Fail(f) => push_approx_v(
                f,
                "Underapproximation"@,
                "unresolved comprehension variable"@,
            ),
        }
    } else {
        st2
    }
}

/// The remaining clauses of a comprehension, in order.
pub open spec fn clauses_scan_v(
    m: &AstModule,
    e: int,
    clauses: Seq<CompClause>,
    i: int,
    st: CollectSt,
) -> CollectSt
    decreases e, 1int, clauses.len() - i,
{
    if i < 0 || i >= clauses.len() {
        st
    } else {
        let st1 = match clauses[i] {
            CompClause::For(f) => bind_for_v(m, f, st),
            CompClause::If(x) => if (x as int) < e {
                visit_expr_v(m, x as int, st)
            } else {
                st
            },
        };
        clauses_scan_v(m, e, clauses, i + 1, st1)
    }
}

/// The recognised list mutations of a bare expression statement: exactly
/// `ident.append(x)`, `ident.insert(i, x)` (contributing its second
/// argument) and `ident.extend(xs)`, on an identifier resolved to a slot,
/// feed that slot a synthetic contribution; everything else records nothing
/// here.
pub open spec fn mutation_v(m: &AstModule, e: usize, st: CollectSt) -> CollectSt {
    if (e as int) < m.exprs@.len() {
        match m.exprs@[e as int].kind {
            ExprKind::Call(f, args) => if (f as int) < m.exprs@.len() {
                match m.exprs@[f as int].kind {
                    ExprKind::Dot(obj, attr) => if (obj as int) < m.exprs@.len() {
                        match m.exprs@[obj as int].kind {
                            ExprKind::Identifier(IdentRef::Slot(id)) => if attr@ == "append"@
                                && args@.len() == 1 {
                                record_mut_v(st, id, false, arg_expr_v(args@[0]))
                            } else if attr@ == "insert"@ && args@.len() == 2 {
                                record_mut_v(st, id, false, arg_expr_v(args@[1]))
                            } else if attr@ == "extend"@ && args@.len() == 1 {
                                record_mut_v(st, id, true, arg_expr_v(args@[0]))
                            } else {
                                st
                            },
                            _ => st,
                        }
                    } else {
                        st
                    },
                    _ => st,
                }
            } else {
                st
            },
            _ => st,
        }
    } else {
        st
    }
}

/// One recognised mutation recorded: an `extend` as a `ListExtend`
/// contribution, the others as `ListAppend`, fed to the mutated slot's row.
pub open spec fn record_mut_v(st: CollectSt, id: usize, extend: bool, av: usize) -> CollectSt {
    let be = st.bind_exprs.len() as usize;
    let st1 = if extend {
        push_bind_v(st, BindExpr::ListExtend(id, av))
    } else {
        push_bind_v(st, BindExpr::ListAppend(id, av))
    };
    if (id as int) < st1.expressions.len() {
        push_row_v(st1, id, be)
    } else {
        st1
    }
}

/// What a bare expression statement records: any recognised mutation, then
/// the expression's own registrations, then the floating check.
pub open spec fn expr_stmt_v(m: &AstModule, e: usize, st: CollectSt) -> CollectSt {
    push_check_v(visit_expr_v(m, e as int, mutation_v(m, e, st)), e)
}

/// One `def` parameter list, folded left to right: ordinary parameters are
/// positional-or-named until the bare `*`, named-only after it, optional
/// when they carry a default (whose expression is walked); an unannotated
/// parameter types as `Any`; `*args` binds as a tuple, and an unannotated
/// `**kwargs` binds and types as a dictionary from strings.
pub open spec fn def_params_v(
    m: &AstModule,
    params: Seq<DefParam>,
    i: int,
    ps: Seq<crate::ty::ParamV>,
    seen: bool,
    st: CollectSt,
) -> (Seq<crate::ty::ParamV>, CollectSt)
    decreases params.len() - i,
{
    if i < 0 || i >= params.len() {
        (ps, st)
    } else {
        let p = params[i];
        match p.kind {
            DefParamKind::NoArgs => def_params_v(m, params, i + 1, ps, true, st),
            DefParamKind::Args => {
                let tv = match p.ann {
                    Option::Some(t) => ty_v(t),
                    Option::None => crate::ty::any_v(),
                };
                let prm = crate::ty::ParamV {
                    mode: crate::ty::ParamModeV::Args,
                    optional: true,
                    ty: tv,
                };
                let st1 = match p.binding {
                    Option::Some(pb) => if (pb as int) < st.types.len() {
                        set_type_v(st, pb, crate::ty::any_tuple_v())
                    } else {
                        st
                    },
                    Option::None => st,
                };
                def_params_v(m, params, i + 1, ps.push(prm), seen, st1)
            },
            DefParamKind::Kwargs => {
                let tv0 = match p.ann {
                    Option::Some(t) => ty_v(t),
                    Option::None => crate::ty::any_v(),
                };
                let tv = if tv0.is_any() {
                    crate::ty::dict_v(crate::ty::string_v(), crate::ty::any_v())
                } else {
                    tv0
                };
                let prm = crate::ty::ParamV {
                    mode: crate::ty::ParamModeV::Kwargs,
                    optional: true,
                    ty: tv,
                };
                let st1 = match p.binding {
                    Option::Some(pb) => if (pb as int) < st.types.len() {
                        set_type_v(st, pb, tv)
                    } else {
                        st
                    },
                    Option::None => st,
                };
                def_params_v(m, params, i + 1, ps.push(prm), seen, st1)
            },
            _ => {
                let tv = match p.ann {
                    Option::Some(t) => ty_v(t),
                    Option::None => crate::ty::any_v(),
                };
                let mode = if seen {
                    crate::ty::ParamModeV::NameOnly(p.name@)
                } else {
                    crate::ty::ParamModeV::PosOrName(p.name@)
                };
                let opt = p.kind is WithDefault;
                let st1 = match p.kind {
                    DefParamKind::WithDefault(d) => visit_expr_v(m, d as int, st),
                    _ => st,
                };
                let prm = crate::ty::ParamV { mode, optional: opt, ty: tv };
                let st2 = match p.binding {
                    Option::Some(pb) => if (pb as int) < st1.types.len() {
                        set_type_v(st1, pb, tv)
                    } else {
                        st1
                    },
                    Option::None => st1,
                };
                def_params_v(m, params, i + 1, ps.push(prm), seen, st2)
            },
        }
    }
}

/// The names a `load` brings in, in order: each slot's declared type is the
/// exporting interface's type for the name, or `Any` where the interface
/// does not export it.
pub open spec fn load_scan_v(
    iface: Interface,
    args: Seq<LoadArg>,
    i: int,
    st: CollectSt,
) -> CollectSt
    decreases args.len() - i,
{
    if i < 0 || i >= args.len() {
        st
    } else {
        let tv = match interface_lookup_v(iface.bindings@, 0, args[i].name@) {
            Option::Some(t) => t,
            Option::None => crate::ty::any_v(),
        };
        let st1 = if (args[i].binding as int) < st.types.len() {
            set_type_v(st, args[i].binding, tv)
        } else {
            st
        };
        load_scan_v(iface, args, i + 1, st1)
    }
}

/// One statement's recordings, per statement kind.
pub open spec fn visit_stmt_v(m: &AstModule, s: int, ret: crate::ty::TyV, st: CollectSt) -> CollectOut
    decreases s, 1int, 0int,
{
    if s < 0 || s >= m.stmts@.len() {
        CollectOut::Done(st)
    } else {
        match m.stmts@[s].kind {
            StmtKind::Assign(t, ann, rhs) => {
                let st1 = match ann {
                    Option::Some(ty) => {
                        let sta = push_check_type_v(
                            st,
                            m.stmts@[s].span,
                            Option::Some(rhs),
                            ty_v(ty),
                        );
                        if (t as int) < m.targets@.len() {
                            match m.targets@[t as int].kind {
                                TargetKind::Identifier(IdentRef::Slot(b)) => if (b as int)
                                    < sta.types.len() {
                                    set_type_v(sta, b, ty_v(ty))
                                } else {
                                    sta
                                },
                                _ => sta,
                            }
                        } else {
                            sta
                        }
                    },
                    Option::None => st,
                };
                let st2 = visit_expr_v(m, rhs as int, st1);
                let be = st2.bind_exprs.len() as usize;
                let st3 = push_bind_v(st2, BindExpr::Expr(rhs));
                assign_target_v(m, t as int, be, st3)
            },
            StmtKind::AssignModify(t, op, rhs) => {
                let st1 = visit_expr_v(m, rhs as int, st);
                let be = st1.bind_exprs.len() as usize;
                let st2 = push_bind_v(st1, BindExpr::AssignModify(t, op, rhs));
                assign_target_v(m, t as int, be, st2)
            },
            StmtKind::For(t, over, body) => {
                let st1 = visit_expr_v(m, over as int, st);
                let src = st1.bind_exprs.len() as usize;
                let st2 = push_bind_v(st1, BindExpr::Expr(over));
                let be = st2.bind_exprs.len() as usize;
                let st3 = push_bind_v(st2, BindExpr::Iter(src));
                match assign_target_v(m, t as int, be, st3) {
                    CollectOut::Done(st4) => body_scan_v(m, s, body@, 0, ret, st4),
                    CollectOut::Fail(f) => CollectOut::Fail(f),
                }
            },
            StmtKind::Def(b, params, ret0, body) => {
                let pr = def_params_v(m, params@, 0, Seq::empty(), false, st);
                let rtv = match ret0 {
                    Option::Some(t) => ty_v(t),
                    Option::None => crate::ty::any_v(),
                };
                let fun = crate::ty::function_v(pr.0, rtv);
                let st1 = if (b as int) < pr.1.types.len() {
                    set_type_v(pr.1, b, fun)
                } else {
                    pr.1
                };
                body_scan_v(m, s, body@, 0, rtv, st1)
            },
            StmtKind::Load(iface, args) => CollectOut::Done(load_scan_v(iface, args@, 0, st)),
            StmtKind::Return(e) => {
                let st1 = match e {
                    Option::Some(ex) => visit_expr_v(m, ex as int, st),
                    Option::None => st,
                };
                CollectOut::Done(push_check_type_v(st1, m.stmts@[s].span, e, ret))
            },
            StmtKind::Expression(e) => CollectOut::Done(expr_stmt_v(m, e, st)),
            StmtKind::If(c, body) => {
                let st1 = push_check_v(visit_expr_v(m, c as int, st), c);
                body_scan_v(m, s, body@, 0, ret, st1)
            },
            StmtKind::IfElse(c, body, orelse) => {
                let st1 = push_check_v(visit_expr_v(m, c as int, st), c);
                match body_scan_v(m, s, body@, 0, ret, st1) {
                    CollectOut::Done(st2) => body_scan_v(m, s, orelse@, 0, ret, st2),
                    CollectOut::Fail(f) => CollectOut::Fail(f),
                }
            },
            StmtKind::Pass => CollectOut::Done(st),
        }
    }
}

/// A statement block, walked in order; failure stops the walk.
pub open spec fn body_scan_v(
    m: &AstModule,
    s: int,
    body: Seq<usize>,
    i: int,
    ret: crate::ty::TyV,
    st: CollectSt,
) -> CollectOut
    decreases s, 0int, body.len() - i,
{
    if i < 0 || i >= body.len() {
        CollectOut::Done(st)
    } else if (body[i] as int) < s {
        match visit_stmt_v(m, body[i] as int, ret, st) {
            CollectOut::Done(st1) => body_scan_v(m, s, body, i + 1, ret, st1),
            CollectOut::Fail(f) => CollectOut::Fail(f),
        }
    } else {
        CollectOut::Fail(st)
    }
}

/// The top-level statements, walked in order against an `Any` return type.
pub open spec fn top_scan_v(m: &AstModule, i: int, st: CollectSt) -> CollectOut
    decreases m.top@.len() - i,
{
    if i < 0 || i >= m.top@.len() {
        CollectOut::Done(st)
    } else {
        let s = m.top@[i];
        if (s as int) < m.stmts@.len() {
            match visit_stmt_v(m, s as int, crate::ty::any_v(), st) {
                CollectOut::Done(st1) => top_scan_v(m, i + 1, st1),
                CollectOut::Fail(f) => CollectOut::Fail(f),
            }
        } else {
            top_scan_v(m, i + 1, st)
        }
    }
}

/// The whole collection: every top-level statement's recordings, from the
/// empty tables.
pub open spec fn collect_v(m: &AstModule) -> CollectOut {
    top_scan_v(m, 0, init_st_v(m.n_bindings as nat))
}


/// Record what one statement contributes: assignments feed their targets,
/// `for` targets iterate their source, `def`s declare their binding's
/// callable type and walk their body against the declared return type,
/// `load`s take types from the exporting interface, `return`s become checks
/// against the enclosing declared return type, expression statements and
/// `if` conditions become floating checks, and the recognised list-method
/// calls become synthetic mutation contributions.
fn visit_stmt(m: &AstModule, s: usize, return_type: &Ty, out: &mut BindingsCollect) -> (r: Result<
    (),
    InternalError,
>)
    requires
        crate::syntax::module_wf(m),
        s < m.stmts@.len(),
        wf_ty(return_type@),
        bindings_tys_wf(&old(out).bindings),
        old(out).bindings.expressions@.len() == m.n_bindings,
        old(out).bindings.types@.len() == m.n_bindings,
    ensures
        bindings_tys_wf(&final(out).bindings),
        final(out).bindings.expressions@.len() == m.n_bindings,
        final(out).bindings.types@.len() == m.n_bindings,
        match r {
            Result::Ok(()) => visit_stmt_v(m, s as int, return_type@, st_of(*old(out)))
                == CollectOut::Done(st_of(*final(out))),
            Result::Err(_) => visit_stmt_v(m, s as int, return_type@, st_of(*old(out)))
                == CollectOut::Fail(st_of(*final(out))),
        },
    decreases s, 1int,
{
    proof {
        crate::syntax::lemma_stmt_wf_cases(m, s as int);
    }
    match &m.stmts[s].kind {
        StmtKind::Assign(t, ann, rhs) => {
            proof {
                let ghost k = m.stmts@[s as int].kind;
                assert(k->Assign_0 == *t && k->Assign_1 == *ann && k->Assign_2 == *rhs);
            }
            match ann {
                Option::Some(ty) => {
                    let ghost sta = st_of(*out);
                    out.bindings.check_type.push((m.stmts[s].span, Option::Some(*rhs), ty.clone()));
                    proof {
                        assert(st_of(*out) =~~= push_check_type_v(
                            sta,
                            m.stmts@[s as int].span,
                            Option::Some(*rhs),
                            ty_v(*ty),
                        ));
                    }
                    if *t < m.targets.len() {
                        match &m.targets[*t].kind {
                            TargetKind::Identifier(IdentRef::Slot(b)) => {
                                if *b < out.bindings.types.len() {
                                    let ghost stb = st_of(*out);
                                    let c = ty.clone();
                                    out.bindings.types.set(*b, Option::Some(c));
                                    proof {
                                        assert(st_of(*out) =~~= set_type_v(stb, *b, ty_v(*ty)));
                                    }
                                }
                            },
                            _ => {},
                        }
                    }
                },
                Option::None => {},
            }
            visit_expr(m, *rhs, out);
            let be = push_bind(out, BindExpr::Expr(*rhs));
            assign_target(m, *t, be, out)
        },
        StmtKind::AssignModify(t, op, rhs) => {
            proof {
                let ghost k = m.stmts@[s as int].kind;
                assert(k->AssignModify_0 == *t && k->AssignModify_1 == *op && k->AssignModify_2
                    == *rhs);
            }
            visit_expr(m, *rhs, out);
            let be = push_bind(out, BindExpr::AssignModify(*t, *op, *rhs));
            assign_target(m, *t, be, out)
        },
        StmtKind::For(t, over, body) => {
            proof {
                let ghost k = m.stmts@[s as int].kind;
                assert(k->For_0 == *t && k->For_1 == *over && k->For_2 == *body);
            }
            visit_expr(m, *over, out);
            let src = push_bind(out, BindExpr::Expr(*over));
            let be = push_bind(out, BindExpr::Iter(src));
            match assign_target(m, *t, be, out) {
                Result::Ok(()) => {},
                Result::Err(e) => {
                    return Result::Err(e);
                },
            }
            proof {
                assert(visit_stmt_v(m, s as int, return_type@, st_of(*old(out))) == body_scan_v(
                    m,
                    s as int,
                    body@,
                    0,
                    return_type@,
                    st_of(*out),
                ));
            }
            let n = body.len();
            for i in 0..n
                invariant
                    n == body@.len(),
                    crate::syntax::module_wf(m),
                    s < m.stmts@.len(),
                    m.stmts@[s as int].kind == StmtKind::For(*t, *over, *body),
                    wf_ty(return_type@),
                    bindings_tys_wf(&out.bindings),
                    out.bindings.expressions@.len() == m.n_bindings,
                    out.bindings.types@.len() == m.n_bindings,
                    visit_stmt_v(m, s as int, return_type@, st_of(*old(out))) == body_scan_v(
                        m,
                        s as int,
                        body@,
                        i as int,
                        return_type@,
                        st_of(*out),
                    ),
            {
                proof {
                    crate::syntax::lemma_stmt_wf_cases(m, s as int);
                    let ghost k = m.stmts@[s as int].kind;
                    assert(k->For_2 == *body);
                    assert(body@[i as int] < s);
                }
                let ghost sti = st_of(*out);
                match visit_stmt(m, body[i], return_type, out) {
                    Result::Ok(()) => {
                        proof {
                            assert(body_scan_v(m, s as int, body@, i as int, return_type@, sti)
                                == body_scan_v(
                                m,
                                s as int,
                                body@,
                                i + 1,
                                return_type@,
                                st_of(*out),
                            ));
                        }
                    },
                    Result::Err(e) => {
                        proof {
                            assert(body_scan_v(m, s as int, body@, i as int, return_type@, sti)
                                == CollectOut::Fail(st_of(*out)));
                        }
                        return Result::Err(e);
                    },
                }
            }
            Result::Ok(())
        },
        StmtKind::Def(b, params, ret, body) => {
            proof {
                let ghost k = m.stmts@[s as int].kind;
                assert(k->Def_0 == *b && k->Def_1 == *params && k->Def_2 == *ret && k->Def_3
                    == *body);
            }
            let mut params2: Vec<Param> = Vec::new();
            let mut seen_no_args = false;
            let np = params.len();
            proof {
                assert(params_v(params2@, 0, Seq::empty()) =~= Seq::<crate::ty::ParamV>::empty());
            }
            for i in 0..np
                invariant
                    np == params@.len(),
                    crate::syntax::module_wf(m),
                    s < m.stmts@.len(),
                    m.stmts@[s as int].kind == StmtKind::Def(*b, *params, *ret, *body),
                    bindings_tys_wf(&out.bindings),
                    out.bindings.expressions@.len() == m.n_bindings,
                    out.bindings.types@.len() == m.n_bindings,
                    forall|j: int|
                        0 <= j < params2@.len() ==> wf_ty(
                            crate::ty::param_v(#[trigger] params2@[j]).ty,
                        ),
                    def_params_v(
                        m,
                        params@,
                        i as int,
                        params_v(params2@, 0, Seq::empty()),
                        seen_no_args,
                        st_of(*out),
                    ) == def_params_v(
                        m,
                        params@,
                        0,
                        Seq::empty(),
                        false,
                        st_of(*old(out)),
                    ),
            {
                let ghost sti = st_of(*out);
                let ghost oldp = params2@;
                let ghost old_seen = seen_no_args;
                proof {
                    crate::syntax::lemma_stmt_wf_cases(m, s as int);
                    let ghost k = m.stmts@[s as int].kind;
                    assert(k->Def_1 == *params);
                    assert(crate::syntax::def_param_wf(m, params@[i as int]));
                }
                let p = &params[i];
                match &p.kind {
                    DefParamKind::Normal | DefParamKind::WithDefault(_) => {
                        let ty = match &p.ann {
                            Option::Some(t) => t.clone(),
                            Option::None => Ty::any(),
                        };
                        let pname = p.name.clone();
                        let mut prm = if seen_no_args {
                            Param::name_only(pname, ty.clone())
                        } else {
                            Param::pos_or_name(pname, ty.clone())
                        };
                        let with_default = match &p.kind {
                            DefParamKind::WithDefault(d) => {
                                visit_expr(m, *d, out);
                                true
                            },
                            _ => false,
                        };
                        if with_default {
                            prm = prm.into_optional();
                        }
                        params2.push(prm);
                        match &p.binding {
                            Option::Some(pb) => {
                                if *pb < out.bindings.types.len() {
                                    let ghost stk = st_of(*out);
                                    let ghost tyv = ty@;
                                    out.bindings.types.set(*pb, Option::Some(ty));
                                    proof {
                                        assert(st_of(*out) =~~= set_type_v(stk, *pb, tyv));
                                    }
                                }
                            },
                            Option::None => {},
                        }
                    },
                    DefParamKind::NoArgs => {
                        seen_no_args = true;
                    },
                    DefParamKind::Args => {
                        let ty = match &p.ann {
                            Option::Some(t) => t.clone(),
                            Option::None => Ty::any(),
                        };
                        params2.push(Param::args(ty));
                        match &p.binding {
                            Option::Some(pb) => {
                                if *pb < out.bindings.types.len() {
                                    let ghost stk = st_of(*out);
                                    // While running, a `*args` parameter is
                                    // always a tuple.
                                    out.bindings.types.set(*pb, Option::Some(Ty::any_tuple()));
                                    proof {
                                        assert(st_of(*out) =~~= set_type_v(
                                            stk,
                                            *pb,
                                            crate::ty::any_tuple_v(),
                                        ));
                                    }
                                }
                            },
                            Option::None => {},
                        }
                    },
                    DefParamKind::Kwargs => {
                        let ty0 = match &p.ann {
                            Option::Some(t) => t.clone(),
                            Option::None => Ty::any(),
                        };
                        let ty = if ty0.is_any() {
                            Ty::dict(Ty::string(), Ty::any())
                        } else {
                            ty0
                        };
                        params2.push(Param::kwargs(ty.clone()));
                        match &p.binding {
                            Option::Some(pb) => {
                                if *pb < out.bindings.types.len() {
                                    let ghost stk = st_of(*out);
                                    let ghost tyv = ty@;
                                    out.bindings.types.set(*pb, Option::Some(ty));
                                    proof {
                                        assert(st_of(*out) =~~= set_type_v(stk, *pb, tyv));
                                    }
                                }
                            },
                            Option::None => {},
                        }
                    },
                }
                proof {
                    crate::ty::lemma_params_mirror(oldp);
                    crate::ty::lemma_params_mirror(params2@);
                    if params2@.len() == oldp.len() + 1 {
                        assert(params2@ == oldp.push(params2@.last()));
                        assert forall|j: int| 0 <= j < oldp.len() implies params_v(
                            params2@,
                            0,
                            Seq::empty(),
                        )[j] == params_v(oldp, 0, Seq::empty()).push(
                            crate::ty::param_v(params2@.last()),
                        )[j] by {
                            assert(params2@[j] == oldp[j]);
                        }
                        assert(params_v(params2@, 0, Seq::empty()) =~= params_v(
                            oldp,
                            0,
                            Seq::empty(),
                        ).push(crate::ty::param_v(params2@.last())));
                    }
                    assert(def_params_v(
                        m,
                        params@,
                        i as int,
                        params_v(oldp, 0, Seq::empty()),
                        old_seen,
                        sti,
                    ) == def_params_v(
                        m,
                        params@,
                        i + 1,
                        params_v(params2@, 0, Seq::empty()),
                        seen_no_args,
                        st_of(*out),
                    ));
                }
            }
            let ghost pr = def_params_v(m, params@, 0, Seq::empty(), false, st_of(*old(out)));
            proof {
                assert(pr == (params_v(params2@, 0, Seq::empty()), st_of(*out)));
            }
            let ret_ty = match ret {
                Option::Some(t) => t.clone(),
                Option::None => Ty::any(),
            };
            let ghost ps_final = params_v(params2@, 0, Seq::empty());
            let fun = Ty::function(params2, ret_ty.clone());
            if *b < out.bindings.types.len() {
                let ghost stf = st_of(*out);
                let ghost funv = fun@;
                out.bindings.types.set(*b, Option::Some(fun));
                proof {
                    assert(st_of(*out) =~~= set_type_v(stf, *b, funv));
                }
            }
            proof {
                assert(visit_stmt_v(m, s as int, return_type@, st_of(*old(out))) == body_scan_v(
                    m,
                    s as int,
                    body@,
                    0,
                    ret_ty@,
                    st_of(*out),
                ));
            }
            let n = body.len();
            for i in 0..n
                invariant
                    n == body@.len(),
                    crate::syntax::module_wf(m),
                    s < m.stmts@.len(),
                    m.stmts@[s as int].kind == StmtKind::Def(*b, *params, *ret, *body),
                    wf_ty(ret_ty@),
                    bindings_tys_wf(&out.bindings),
                    out.bindings.expressions@.len() == m.n_bindings,
                    out.bindings.types@.len() == m.n_bindings,
                    visit_stmt_v(m, s as int, return_type@, st_of(*old(out))) == body_scan_v(
                        m,
                        s as int,
                        body@,
                        i as int,
                        ret_ty@,
                        st_of(*out),
                    ),
            {
                proof {
                    crate::syntax::lemma_stmt_wf_cases(m, s as int);
                    let ghost k = m.stmts@[s as int].kind;
                    assert(k->Def_3 == *body);
                    assert(body@[i as int] < s);
                }
                let ghost sti = st_of(*out);
                match visit_stmt(m, body[i], &ret_ty, out) {
                    Result::Ok(()) => {
                        proof {
                            assert(body_scan_v(m, s as int, body@, i as int, ret_ty@, sti)
                                == body_scan_v(m, s as int, body@, i + 1, ret_ty@, st_of(*out)));
                        }
                    },
                    Result::Err(e) => {
                        proof {
                            assert(body_scan_v(m, s as int, body@, i as int, ret_ty@, sti)
                                == CollectOut::Fail(st_of(*out)));
                        }
                        return Result::Err(e);
                    },
                }
            }
            Result::Ok(())
        },
        StmtKind::Load(iface, args) => {
            proof {
                let ghost k = m.stmts@[s as int].kind;
                assert(k->Load_0 == *iface && k->Load_1 == *args);
            }
            let n = args.len();
            for i in 0..n
                invariant
                    n == args@.len(),
                    crate::syntax::module_wf(m),
                    s < m.stmts@.len(),
                    m.stmts@[s as int].kind == StmtKind::Load(*iface, *args),
                    bindings_tys_wf(&out.bindings),
                    out.bindings.expressions@.len() == m.n_bindings,
                    out.bindings.types@.len() == m.n_bindings,
                    load_scan_v(*iface, args@, i as int, st_of(*out)) == load_scan_v(
                        *iface,
                        args@,
                        0,
                        st_of(*old(out)),
                    ),
            {
                proof {
                    crate::syntax::lemma_stmt_wf_cases(m, s as int);
                    let ghost k = m.stmts@[s as int].kind;
                    assert(k->Load_0 == *iface);
                    assert(k->Load_1 == *args);
                }
                let ghost sti = st_of(*out);
                let ty = match iface.get(&args[i].name) {
                    Option::Some(t) => t.clone(),
                    Option::None => Ty::any(),
                };
                proof {
                    assert(ty@ == (match interface_lookup_v(
                        iface.bindings@,
                        0,
                        args@[i as int].name@,
                    ) {
                        Option::Some(t) => t,
                        Option::None => crate::ty::any_v(),
                    }));
                }
                let bnd = args[i].binding;
                let ghost tyv = ty@;
                if bnd < out.bindings.types.len() {
                    out.bindings.types.set(bnd, Option::Some(ty));
                    proof {
                        assert(st_of(*out) =~~= set_type_v(sti, bnd, tyv));
                    }
                }
                proof {
                    assert(load_scan_v(*iface, args@, i as int, sti) == load_scan_v(
                        *iface,
                        args@,
                        i + 1,
                        st_of(*out),
                    ));
                }
            }
            proof {
                assert(visit_stmt_v(m, s as int, return_type@, st_of(*old(out)))
                    == CollectOut::Done(st_of(*out)));
            }
            Result::Ok(())
        },
        StmtKind::Return(e) => {
            proof {
                let ghost k = m.stmts@[s as int].kind;
                assert(k->Return_0 == *e);
            }
            match e {
                Option::Some(ex) => visit_expr(m, *ex, out),
                Option::None => {},
            }
            let ghost str1 = st_of(*out);
            out.bindings.check_type.push((m.stmts[s].span, *e, return_type.clone()));
            proof {
                assert(st_of(*out) =~~= push_check_type_v(
                    str1,
                    m.stmts@[s as int].span,
                    *e,
                    return_type@,
                ));
                assert(visit_stmt_v(m, s as int, return_type@, st_of(*old(out)))
                    == CollectOut::Done(st_of(*out)));
            }
            Result::Ok(())
        },
        StmtKind::Expression(e) => {
            proof {
                let ghost k = m.stmts@[s as int].kind;
                assert(k->Expression_0 == *e);
            }
            // Recognise `ident.append(x)`, `ident.insert(i, x)` and
            // `ident.extend(xs)` so these list mutations are not invisible.
            if *e < m.exprs.len() {
                match &m.exprs[*e].kind {
                    ExprKind::Call(f, args) => {
                        proof {
                            let ghost ke = m.exprs@[*e as int].kind;
                            assert(ke->Call_0 == *f && ke->Call_1 == *args);
                        }
                        if *f < m.exprs.len() {
                            match &m.exprs[*f].kind {
                                ExprKind::Dot(obj, attr) => {
                                    proof {
                                        let ghost kf = m.exprs@[*f as int].kind;
                                        assert(kf->Dot_0 == *obj && kf->Dot_1 == *attr);
                                    }
                                    if *obj < m.exprs.len() {
                                        match &m.exprs[*obj].kind {
                                            ExprKind::Identifier(IdentRef::Slot(id)) => {
                                                let which: Option<(bool, usize)> = if *attr
                                                    == new_string("append") && args.len() == 1 {
                                                    Option::Some((false, 0))
                                                } else if *attr == new_string("insert")
                                                    && args.len() == 2 {
                                                    Option::Some((false, 1))
                                                } else if *attr == new_string("extend")
                                                    && args.len() == 1 {
                                                    Option::Some((true, 0))
                                                } else {
                                                    Option::None
                                                };
                                                match which {
                                                    Option::Some((extend, k)) => {
                                                        let av = arg_expr(&args[k]);
                                                        proof {
                                                            assert(av == arg_expr_v(
                                                                args@[k as int],
                                                            ));
                                                        }
                                                        let be = if extend {
                                                            push_bind(
                                                                out,
                                                                BindExpr::ListExtend(*id, av),
                                                            )
                                                        } else {
                                                            push_bind(
                                                                out,
                                                                BindExpr::ListAppend(*id, av),
                                                            )
                                                        };
                                                        let ghost str1 = st_of(*out);
                                                        if *id < out.bindings.expressions.len() {
                                                            push_row(
                                                                &mut out.bindings.expressions,
                                                                *id,
                                                                be,
                                                            );
                                                            proof {
                                                                assert(st_of(*out)
                                                                    =~~= push_row_v(
                                                                    str1,
                                                                    *id,
                                                                    be,
                                                                ));
                                                            }
                                                        }
                                                        proof {
                                                            assert(st_of(*out) == record_mut_v(
                                                                st_of(*old(out)),
                                                                *id,
                                                                extend,
                                                                av,
                                                            ));
                                                            assert(st_of(*out) == mutation_v(
                                                                m,
                                                                *e,
                                                                st_of(*old(out)),
                                                            ));
                                                        }
                                                    },
                                                    Option::None => {
                                                        proof {
                                                            assert(st_of(*out) == mutation_v(
                                                                m,
                                                                *e,
                                                                st_of(*old(out)),
                                                            ));
                                                        }
                                                    },
                                                }
                                            },
                                            _ => {
                                                proof {
                                                    assert(st_of(*out) == mutation_v(
                                                        m,
                                                        *e,
                                                        st_of(*old(out)),
                                                    ));
                                                }
                                            },
                                        }
                                    } else {
                                        proof {
                                            assert(st_of(*out) == mutation_v(
                                                m,
                                                *e,
                                                st_of(*old(out)),
                                            ));
                                        }
                                    }
                                },
                                _ => {
                                    proof {
                                        assert(st_of(*out) == mutation_v(
                                            m,
                                            *e,
                                            st_of(*old(out)),
                                        ));
                                    }
                                },
                            }
                        } else {
                            proof {
                                assert(st_of(*out) == mutation_v(m, *e, st_of(*old(out))));
                            }
                        }
                    },
                    _ => {
                        proof {
                            assert(st_of(*out) == mutation_v(m, *e, st_of(*old(out))));
                        }
                    },
                }
            } else {
                proof {
                    assert(st_of(*out) == mutation_v(m, *e, st_of(*old(out))));
                }
            }
            visit_expr(m, *e, out);
            let ghost str2 = st_of(*out);
            out.bindings.check.push(*e);
            proof {
                assert(st_of(*out) =~~= push_check_v(str2, *e));
                assert(st_of(*out) == expr_stmt_v(m, *e, st_of(*old(out))));
                assert(visit_stmt_v(m, s as int, return_type@, st_of(*old(out)))
                    == CollectOut::Done(st_of(*out)));
            }
            Result::Ok(())
        },
        StmtKind::If(c, body) => {
            proof {
                let ghost k = m.stmts@[s as int].kind;
                assert(k->If_0 == *c && k->If_1 == *body);
            }
            visit_expr(m, *c, out);
            let ghost stc = st_of(*out);
            out.bindings.check.push(*c);
            proof {
                assert(st_of(*out) =~~= push_check_v(stc, *c));
                assert(visit_stmt_v(m, s as int, return_type@, st_of(*old(out))) == body_scan_v(
                    m,
                    s as int,
                    body@,
                    0,
                    return_type@,
                    st_of(*out),
                ));
            }
            let n = body.len();
            for i in 0..n
                invariant
                    n == body@.len(),
                    crate::syntax::module_wf(m),
                    s < m.stmts@.len(),
                    m.stmts@[s as int].kind == StmtKind::If(*c, *body),
                    wf_ty(return_type@),
                    bindings_tys_wf(&out.bindings),
                    out.bindings.expressions@.len() == m.n_bindings,
                    out.bindings.types@.len() == m.n_bindings,
                    visit_stmt_v(m, s as int, return_type@, st_of(*old(out))) == body_scan_v(
                        m,
                        s as int,
                        body@,
                        i as int,
                        return_type@,
                        st_of(*out),
                    ),
            {
                proof {
                    crate::syntax::lemma_stmt_wf_cases(m, s as int);
                    let ghost k = m.stmts@[s as int].kind;
                    assert(k->If_1 == *body);
                    assert(body@[i as int] < s);
                }
                let ghost sti = st_of(*out);
                match visit_stmt(m, body[i], return_type, out) {
                    Result::Ok(()) => {
                        proof {
                            assert(body_scan_v(m, s as int, body@, i as int, return_type@, sti)
                                == body_scan_v(
                                m,
                                s as int,
                                body@,
                                i + 1,
                                return_type@,
                                st_of(*out),
                            ));
                        }
                    },
                    Result::Err(e) => {
                        proof {
                            assert(body_scan_v(m, s as int, body@, i as int, return_type@, sti)
                                == CollectOut::Fail(st_of(*out)));
                        }
                        return Result::Err(e);
                    },
                }
            }
            Result::Ok(())
        },
        StmtKind::IfElse(c, body, orelse) => {
            proof {
                let ghost k = m.stmts@[s as int].kind;
                assert(k->IfElse_0 == *c && k->IfElse_1 == *body && k->IfElse_2 == *orelse);
            }
            visit_expr(m, *c, out);
            let ghost stc = st_of(*out);
            out.bindings.check.push(*c);
            proof {
                assert(st_of(*out) =~~= push_check_v(stc, *c));
            }
            let ghost sth = st_of(*out);
            let n = body.len();
            for i in 0..n
                invariant
                    n == body@.len(),
                    crate::syntax::module_wf(m),
                    s < m.stmts@.len(),
                    m.stmts@[s as int].kind == StmtKind::IfElse(*c, *body, *orelse),
                    wf_ty(return_type@),
                    bindings_tys_wf(&out.bindings),
                    out.bindings.expressions@.len() == m.n_bindings,
                    out.bindings.types@.len() == m.n_bindings,
                    sth == push_check_v(
                        visit_expr_v(m, *c as int, st_of(*old(out))),
                        *c,
                    ),
                    body_scan_v(m, s as int, body@, i as int, return_type@, st_of(*out))
                        == body_scan_v(m, s as int, body@, 0, return_type@, sth),
            {
                proof {
                    crate::syntax::lemma_stmt_wf_cases(m, s as int);
                    let ghost k = m.stmts@[s as int].kind;
                    assert(k->IfElse_1 == *body);
                    assert(body@[i as int] < s);
                }
                let ghost sti = st_of(*out);
                match visit_stmt(m, body[i], return_type, out) {
                    Result::Ok(()) => {
                        proof {
                            assert(body_scan_v(m, s as int, body@, i as int, return_type@, sti)
                                == body_scan_v(
                                m,
                                s as int,
                                body@,
                                i + 1,
                                return_type@,
                                st_of(*out),
                            ));
                        }
                    },
                    Result::Err(e) => {
                        proof {
                            assert(body_scan_v(m, s as int, body@, i as int, return_type@, sti)
                                == CollectOut::Fail(st_of(*out)));
                            assert(visit_stmt_v(m, s as int, return_type@, st_of(*old(out)))
                                == CollectOut::Fail(st_of(*out)));
                        }
                        return Result::Err(e);
                    },
                }
            }
            proof {
                assert(visit_stmt_v(m, s as int, return_type@, st_of(*old(out)))
                    == body_scan_v(m, s as int, orelse@, 0, return_type@, st_of(*out)));
            }
            let n2 = orelse.len();
            for i in 0..n2
                invariant
                    n2 == orelse@.len(),
                    crate::syntax::module_wf(m),
                    s < m.stmts@.len(),
                    m.stmts@[s as int].kind == StmtKind::IfElse(*c, *body, *orelse),
                    wf_ty(return_type@),
                    bindings_tys_wf(&out.bindings),
                    out.bindings.expressions@.len() == m.n_bindings,
                    out.bindings.types@.len() == m.n_bindings,
                    visit_stmt_v(m, s as int, return_type@, st_of(*old(out))) == body_scan_v(
                        m,
                        s as int,
                        orelse@,
                        i as int,
                        return_type@,
                        st_of(*out),
                    ),
            {
                proof {
                    crate::syntax::lemma_stmt_wf_cases(m, s as int);
                    let ghost k = m.stmts@[s as int].kind;
                    assert(k->IfElse_2 == *orelse);
                    assert(orelse@[i as int] < s);
                }
                let ghost sti = st_of(*out);
                match visit_stmt(m, orelse[i], return_type, out) {
                    Result::Ok(()) => {
                        proof {
                            assert(body_scan_v(m, s as int, orelse@, i as int, return_type@, sti)
                                == body_scan_v(
                                m,
                                s as int,
                                orelse@,
                                i + 1,
                                return_type@,
                                st_of(*out),
                            ));
                        }
                    },
                    Result::Err(e) => {
                        proof {
                            assert(body_scan_v(m, s as int, orelse@, i as int, return_type@, sti)
                                == CollectOut::Fail(st_of(*out)));
                        }
                        return Result::Err(e);
                    },
                }
            }
            Result::Ok(())
        },
        StmtKind::Pass => {
            proof {
                assert(visit_stmt_v(m, s as int, return_type@, st_of(*old(out)))
                    == CollectOut::Done(st_of(*out)));
            }
            Result::Ok(())
        },
    }
}

/// The value expression of a call argument.
fn arg_expr(a: &crate::syntax::ArgNode) -> (r: usize)
    ensures
        match a.kind {
            ArgKind::Pos(e) => r == e,
            ArgKind::Named(_, e) => r == e,
            ArgKind::Args(e) => r == e,
            ArgKind::Kwargs(e) => r == e,
        },
{
    match &a.kind {
        ArgKind::Pos(e) => *e,
        ArgKind::Named(_, e) => *e,
        ArgKind::Args(e) => *e,
        ArgKind::Kwargs(e) => *e,
    }
}

/// Walk an expression's own structure to register comprehension clause
/// variables, which bind exactly like `for` targets. Everything else in the
/// expression is left for the inference walk.
fn visit_expr(m: &AstModule, e: usize, out: &mut BindingsCollect)
    requires
        crate::syntax::module_wf(m),
        bindings_tys_wf(&old(out).bindings),
        old(out).bindings.expressions@.len() == m.n_bindings,
        old(out).bindings.types@.len() == m.n_bindings,
    ensures
        bindings_tys_wf(&final(out).bindings),
        final(out).bindings.expressions@.len() == m.n_bindings,
        final(out).bindings.types@.len() == m.n_bindings,
        st_of(*final(out)) == visit_expr_v(m, e as int, st_of(*old(out))),
    decreases e, 1int,
{
    if e >= m.exprs.len() {
        return ;
    }
    proof {
        crate::syntax::lemma_expr_wf_cases(m, e as int);
    }
    match &m.exprs[e].kind {
        ExprKind::Tuple(xs) | ExprKind::List(xs) => {
            let n = xs.len();
            for i in 0..n
                invariant
                    n == xs@.len(),
                    crate::syntax::module_wf(m),
                    e < m.exprs@.len(),
                    (m.exprs@[e as int].kind == ExprKind::Tuple(*xs) || m.exprs@[e as int].kind
                        == ExprKind::List(*xs)),
                    bindings_tys_wf(&out.bindings),
                    out.bindings.expressions@.len() == m.n_bindings,
                    out.bindings.types@.len() == m.n_bindings,
                    exprs_scan_v(m, e as int, xs@, i as int, st_of(*out)) == exprs_scan_v(
                        m,
                        e as int,
                        xs@,
                        0,
                        st_of(*old(out)),
                    ),
            {
                proof {
                    crate::syntax::lemma_expr_wf_cases(m, e as int);
                    let ghost k = m.exprs@[e as int].kind;
                    assert(k is Tuple ==> k->Tuple_0 == *xs);
                    assert(k is List ==> k->List_0 == *xs);
                    assert(xs@[i as int] < e);
                }
                let ghost sti = st_of(*out);
                visit_expr(m, xs[i], out);
                proof {
                    assert(exprs_scan_v(m, e as int, xs@, i as int, sti) == exprs_scan_v(
                        m,
                        e as int,
                        xs@,
                        i + 1,
                        st_of(*out),
                    ));
                }
            }
            proof {
                let ghost k = m.exprs@[e as int].kind;
                assert(k is Tuple ==> k->Tuple_0 == *xs);
                assert(k is List ==> k->List_0 == *xs);
                assert(st_of(*out) == visit_expr_v(m, e as int, st_of(*old(out))));
            }
        },
        ExprKind::Dot(a, _) => {
            proof {
                assert(*a < e);
            }
            visit_expr(m, *a, out);
            proof {
                let ghost k = m.exprs@[e as int].kind;
                assert(k->Dot_0 == *a);
                assert(st_of(*out) == visit_expr_v(m, e as int, st_of(*old(out))));
            }
        },
        ExprKind::Call(f, args) => {
            proof {
                assert(*f < e);
            }
            visit_expr(m, *f, out);
            let n = args.len();
            let ghost stc = st_of(*out);
            for i in 0..n
                invariant
                    n == args@.len(),
                    crate::syntax::module_wf(m),
                    e < m.exprs@.len(),
                    m.exprs@[e as int].kind == ExprKind::Call(*f, *args),
                    bindings_tys_wf(&out.bindings),
                    out.bindings.expressions@.len() == m.n_bindings,
                    out.bindings.types@.len() == m.n_bindings,
                    args_scan_v(m, e as int, args@, i as int, st_of(*out)) == args_scan_v(
                        m,
                        e as int,
                        args@,
                        0,
                        stc,
                    ),
                    stc == visit_expr_v(m, f as int, st_of(*old(out))),
            {
                proof {
                    crate::syntax::lemma_expr_wf_cases(m, e as int);
                    let ghost k = m.exprs@[e as int].kind;
                    assert(k->Call_1 == *args);
                    assert(crate::syntax::arg_wf(args@[i as int], e as int));
                }
                let ghost sti = st_of(*out);
                let av = arg_expr(&args[i]);
                visit_expr(m, av, out);
                proof {
                    assert(arg_expr_v(args@[i as int]) == av);
                    assert(args_scan_v(m, e as int, args@, i as int, sti) == args_scan_v(
                        m,
                        e as int,
                        args@,
                        i + 1,
                        st_of(*out),
                    ));
                }
            }
            proof {
                let ghost k = m.exprs@[e as int].kind;
                assert(k->Call_0 == *f && k->Call_1 == *args);
                assert(st_of(*out) == visit_expr_v(m, e as int, st_of(*old(out))));
            }
        },
        ExprKind::Index(a, b) => {
            proof {
                assert(*a < e && *b < e);
            }
            visit_expr(m, *a, out);
            visit_expr(m, *b, out);
            proof {
                let ghost k = m.exprs@[e as int].kind;
                assert(k->Index_0 == *a && k->Index_1 == *b);
                assert(st_of(*out) == visit_expr_v(m, e as int, st_of(*old(out))));
            }
        },
        ExprKind::Index2(a, b, c) => {
            proof {
                assert(*a < e && *b < e && *c < e);
            }
            visit_expr(m, *a, out);
            visit_expr(m, *b, out);
            visit_expr(m, *c, out);
            proof {
                let ghost k = m.exprs@[e as int].kind;
                assert(k->Index2_0 == *a && k->Index2_1 == *b && k->Index2_2 == *c);
                assert(st_of(*out) == visit_expr_v(m, e as int, st_of(*old(out))));
            }
        },
        ExprKind::Slice(a, b, c, d) => {
            proof {
                assert(*a < e);
            }
            visit_expr(m, *a, out);
            let ghost st1 = st_of(*out);
            match b {
                Option::Some(x) => {
                    proof {
                        assert(*x < e);
                    }
                    visit_expr(m, *x, out);
                },
                Option::None => {},
            }
            proof {
                assert(st_of(*out) == opt_visit_v(m, e as int, *b, st1));
            }
            let ghost st2 = st_of(*out);
            match c {
                Option::Some(x) => {
                    proof {
                        assert(*x < e);
                    }
                    visit_expr(m, *x, out);
                },
                Option::None => {},
            }
            proof {
                assert(st_of(*out) == opt_visit_v(m, e as int, *c, st2));
            }
            let ghost st3 = st_of(*out);
            match d {
                Option::Some(x) => {
                    proof {
                        assert(*x < e);
                    }
                    visit_expr(m, *x, out);
                },
                Option::None => {},
            }
            proof {
                assert(st_of(*out) == opt_visit_v(m, e as int, *d, st3));
                let ghost k = m.exprs@[e as int].kind;
                assert(k->Slice_0 == *a && k->Slice_1 == *b && k->Slice_2 == *c && k->Slice_3
                    == *d);
                assert(st_of(*out) == visit_expr_v(m, e as int, st_of(*old(out))));
            }
        },
        ExprKind::Not(a) | ExprKind::Minus(a) | ExprKind::Plus(a) | ExprKind::BitNot(a) => {
            proof {
                assert(*a < e);
            }
            visit_expr(m, *a, out);
            proof {
                let ghost k = m.exprs@[e as int].kind;
                assert(k is Not ==> k->Not_0 == *a);
                assert(k is Minus ==> k->Minus_0 == *a);
                assert(k is Plus ==> k->Plus_0 == *a);
                assert(k is BitNot ==> k->BitNot_0 == *a);
                assert(st_of(*out) == visit_expr_v(m, e as int, st_of(*old(out))));
            }
        },
        ExprKind::Op(a, _, b) => {
            proof {
                assert(*a < e && *b < e);
            }
            visit_expr(m, *a, out);
            visit_expr(m, *b, out);
            proof {
                let ghost k = m.exprs@[e as int].kind;
                assert(k->Op_0 == *a && k->Op_2 == *b);
                assert(st_of(*out) == visit_expr_v(m, e as int, st_of(*old(out))));
            }
        },
        ExprKind::IfExpr(a, b, c) => {
            proof {
                assert(*a < e && *b < e && *c < e);
            }
            visit_expr(m, *a, out);
            visit_expr(m, *b, out);
            visit_expr(m, *c, out);
            proof {
                let ghost k = m.exprs@[e as int].kind;
                assert(k->IfExpr_0 == *a && k->IfExpr_1 == *b && k->IfExpr_2 == *c);
                assert(st_of(*out) == visit_expr_v(m, e as int, st_of(*old(out))));
            }
        },
        ExprKind::Dict(kvs) => {
            let n = kvs.len();
            for i in 0..n
                invariant
                    n == kvs@.len(),
                    crate::syntax::module_wf(m),
                    e < m.exprs@.len(),
                    m.exprs@[e as int].kind == ExprKind::Dict(*kvs),
                    bindings_tys_wf(&out.bindings),
                    out.bindings.expressions@.len() == m.n_bindings,
                    out.bindings.types@.len() == m.n_bindings,
                    dict_scan_v(m, e as int, kvs@, i as int, st_of(*out)) == dict_scan_v(
                        m,
                        e as int,
                        kvs@,
                        0,
                        st_of(*old(out)),
                    ),
            {
                proof {
                    crate::syntax::lemma_expr_wf_cases(m, e as int);
                    let ghost k = m.exprs@[e as int].kind;
                    assert(k->Dict_0 == *kvs);
                    assert(kvs@[i as int].0 < e && kvs@[i as int].1 < e);
                }
                let ghost sti = st_of(*out);
                visit_expr(m, kvs[i].0, out);
                visit_expr(m, kvs[i].1, out);
                proof {
                    assert(dict_scan_v(m, e as int, kvs@, i as int, sti) == dict_scan_v(
                        m,
                        e as int,
                        kvs@,
                        i + 1,
                        st_of(*out),
                    ));
                }
            }
            proof {
                let ghost k = m.exprs@[e as int].kind;
                assert(k->Dict_0 == *kvs);
                assert(st_of(*out) == visit_expr_v(m, e as int, st_of(*old(out))));
            }
        },
        ExprKind::ListComprehension(head, for1, clauses) => {
            proof {
                assert(*head < e);
                assert(crate::syntax::for_clause_wf(m, *for1, e as int));
            }
            visit_expr(m, *head, out);
            bind_for_clause(m, for1, out);
            visit_comp_clauses(m, e, clauses, out);
            proof {
                let ghost k = m.exprs@[e as int].kind;
                assert(k->ListComprehension_0 == *head && k->ListComprehension_1 == *for1
                    && k->ListComprehension_2 == *clauses);
                assert(st_of(*out) == visit_expr_v(m, e as int, st_of(*old(out))));
            }
        },
        ExprKind::DictComprehension(kx, vx, for1, clauses) => {
            proof {
                assert(*kx < e && *vx < e);
                assert(crate::syntax::for_clause_wf(m, *for1, e as int));
            }
            visit_expr(m, *kx, out);
            visit_expr(m, *vx, out);
            bind_for_clause(m, for1, out);
            visit_comp_clauses(m, e, clauses, out);
            proof {
                let ghost k = m.exprs@[e as int].kind;
                assert(k->DictComprehension_0 == *kx && k->DictComprehension_1 == *vx
                    && k->DictComprehension_2 == *for1 && k->DictComprehension_3 == *clauses);
                assert(st_of(*out) == visit_expr_v(m, e as int, st_of(*old(out))));
            }
        },
        _ => {
            proof {
                assert(st_of(*out) == visit_expr_v(m, e as int, st_of(*old(out))));
            }
        },
    }
}

/// Register one comprehension `for` clause: its variable binds the
/// iteration element of its source.
fn bind_for_clause(m: &AstModule, c: &ForClause, out: &mut BindingsCollect)
    requires
        crate::syntax::module_wf(m),
        c.var < m.targets@.len(),
        bindings_tys_wf(&old(out).bindings),
        old(out).bindings.expressions@.len() == m.n_bindings,
        old(out).bindings.types@.len() == m.n_bindings,
    ensures
        bindings_tys_wf(&final(out).bindings),
        final(out).bindings.expressions@.len() == m.n_bindings,
        final(out).bindings.types@.len() == m.n_bindings,
        st_of(*final(out)) == bind_for_v(m, *c, st_of(*old(out))),
{
    let src = push_bind(out, BindExpr::Expr(c.over));
    let be = push_bind(out, BindExpr::Iter(src));
    match assign_target(m, c.var, be, out) {
        Result::Ok(()) => {},
        Result::Err(_) => {
            // A malformed comprehension variable degrades to an
            // approximation rather than failing the collection.
            let ghost stf = st_of(*out);
            out.approximations.push(
                Approximation::new("Underapproximation", "unresolved comprehension variable"),
            );
            proof {
                assert(st_of(*out) =~~= push_approx_v(
                    stf,
                    "Underapproximation"@,
                    "unresolved comprehension variable"@,
                ));
            }
        },
    }
}

/// Register the remaining clauses of a comprehension.
fn visit_comp_clauses(m: &AstModule, e: usize, clauses: &Vec<CompClause>, out: &mut BindingsCollect)
    requires
        crate::syntax::module_wf(m),
        e < m.exprs@.len(),
        forall|j: int|
            0 <= j < clauses@.len() ==> crate::syntax::comp_clause_wf(
                m,
                #[trigger] clauses@[j],
                e as int,
            ),
        bindings_tys_wf(&old(out).bindings),
        old(out).bindings.expressions@.len() == m.n_bindings,
        old(out).bindings.types@.len() == m.n_bindings,
    ensures
        bindings_tys_wf(&final(out).bindings),
        final(out).bindings.expressions@.len() == m.n_bindings,
        final(out).bindings.types@.len() == m.n_bindings,
        st_of(*final(out)) == clauses_scan_v(m, e as int, clauses@, 0, st_of(*old(out))),
    decreases e, 0int,
{
    let n = clauses.len();
    for i in 0..n
        invariant
            n == clauses@.len(),
            crate::syntax::module_wf(m),
            e < m.exprs@.len(),
            forall|j: int|
                0 <= j < clauses@.len() ==> crate::syntax::comp_clause_wf(
                    m,
                    #[trigger] clauses@[j],
                    e as int,
                ),
            bindings_tys_wf(&out.bindings),
            out.bindings.expressions@.len() == m.n_bindings,
            out.bindings.types@.len() == m.n_bindings,
            clauses_scan_v(m, e as int, clauses@, i as int, st_of(*out)) == clauses_scan_v(
                m,
                e as int,
                clauses@,
                0,
                st_of(*old(out)),
            ),
    {
        let ghost sti = st_of(*out);
        match &clauses[i] {
            CompClause::For(f) => {
                proof {
                    assert(crate::syntax::comp_clause_wf(m, clauses@[i as int], e as int));
                    assert(clauses@[i as int]->For_0 == *f);
                }
                bind_for_clause(m, f, out);
            },
            CompClause::If(x) => {
                proof {
                    assert(crate::syntax::comp_clause_wf(m, clauses@[i as int], e as int));
                    assert(clauses@[i as int]->If_0 == *x);
                    assert(*x < e);
                }
                visit_expr(m, *x, out);
            },
        }
        proof {
            assert(clauses_scan_v(m, e as int, clauses@, i as int, sti) == clauses_scan_v(
                m,
                e as int,
                clauses@,
                i + 1,
                st_of(*out),
            ));
        }
    }
}

} // verus!

