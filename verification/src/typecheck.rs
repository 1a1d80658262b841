//! Driving a whole-module check: solve the binding types to a fixed point,
//! check every floating expression and every declared-type obligation, and
//! project the top-level binding types into the module's interface.

use vstd::prelude::*;

use crate::bindings::Bindings;
use crate::bindings::BindingsCollect;
use crate::bindings::Interface;
use crate::ctx::ctx_wf;
use crate::ctx::TypingContext;
use crate::error::Approximation;
use crate::error::TypingError;
use crate::oracle::wf_docs;
use crate::oracle::wf_oracle;
use crate::oracle::OracleDocs;
use crate::oracle::TypingOracle;
use crate::oracle::TypingOracleCtx;
use crate::syntax::AstModule;
use crate::ty::ty_v;
use crate::ty::wf_ty;
use crate::ty::Ty;

verus! {

/// How many rounds the fixed-point solver runs before giving up and
/// recording an approximation.
pub const SOLVE_ROUNDS: u32 = 100;

/// What the solver keeps of the seed: the table length, and — for a binding
/// nothing flows into — the seeded type itself (the declared type, or
/// `Never` where none was declared).
pub open spec fn solve_keep(bindings: &Bindings, c: &TypingContext) -> bool {
    &&& c.types@.len() == bindings.types@.len()
    &&& (forall|j: int|
        0 <= j < bindings.types@.len() && j < bindings.expressions@.len() && (
        #[trigger] bindings.expressions@[j])@.len() == 0 ==> c.types@[j] is Some && ty_v(
            c.types@[j]->0,
        ) == (match bindings.types@[j] {
            Option::Some(t) => ty_v(t),
            Option::None => crate::ty::never_v(),
        }))
}

/// Solve the binding types: every binding starts from its declared type, or
/// from `Never` where it has none, and the contributions are folded in by
/// union until nothing changes. Only the final round's diagnostics are
/// kept, so converged re-derivations do not repeat their errors.
pub fn solve_bindings(
    m: &AstModule,
    bindings: &Bindings,
    oracle: TypingOracleCtx,
    global_docs: OracleDocs,
) -> (r: TypingContext)
    requires
        crate::syntax::module_wf(m),
        crate::bindings::bindings_tys_wf(bindings),
        wf_oracle(&oracle.oracle),
        wf_docs(&global_docs),
    ensures
        ctx_wf(&r),
        r.oracle == oracle,
        r.global_docs == global_docs,
        solve_keep(bindings, &r),
{
    let nb = bindings.types.len();
    let mut seed: Vec<Option<Ty>> = Vec::new();
    for i in 0..nb
        invariant
            nb == bindings.types@.len(),
            crate::bindings::bindings_tys_wf(bindings),
            seed@.len() == i,
            forall|j: int|
                0 <= j < seed@.len() && (#[trigger] seed@[j]) is Some ==> wf_ty(
                    ty_v(seed@[j]->0),
                ),
            forall|j: int|
                0 <= j < seed@.len() ==> (#[trigger] seed@[j]) is Some && ty_v(seed@[j]->0) == (
                match bindings.types@[j] {
                    Option::Some(t) => ty_v(t),
                    Option::None => crate::ty::never_v(),
                }),
    {
        let t = match &bindings.types[i] {
            Option::Some(t) => t.clone(),
            Option::None => Ty::never(),
        };
        seed.push(Option::Some(t));
    }
    let mut ctx = TypingContext {
        oracle,
        global_docs,
        types: seed,
        errors: Vec::new(),
        approximations: Vec::new(),
    };
    let mut converged = false;
    let mut round: u32 = 0;
    while round < SOLVE_ROUNDS && !converged
        invariant
            crate::syntax::module_wf(m),
            ctx_wf(&ctx),
            ctx.oracle == oracle,
            ctx.global_docs == global_docs,
            solve_keep(bindings, &ctx),
            round <= SOLVE_ROUNDS,
        decreases SOLVE_ROUNDS - round,
    {
        // Only the last round's diagnostics are reported.
        ctx.errors = Vec::new();
        let mut changed = false;
        let n = bindings.expressions.len();
        for b in 0..n
            invariant
                n == bindings.expressions@.len(),
                crate::syntax::module_wf(m),
                ctx_wf(&ctx),
                ctx.oracle == oracle,
                ctx.global_docs == global_docs,
                solve_keep(bindings, &ctx),
        {
            let row_len = bindings.expressions[b].len();
            for k in 0..row_len
                invariant
                    n == bindings.expressions@.len(),
                    b < n,
                    row_len == bindings.expressions@[b as int]@.len(),
                    crate::syntax::module_wf(m),
                    ctx_wf(&ctx),
                    ctx.oracle == oracle,
                    ctx.global_docs == global_docs,
                    solve_keep(bindings, &ctx),
            {
                let ce = bindings.expressions[b][k];
                let ty = ctx.expression_bind_type(m, bindings, ce);
                let cur = ctx.binding_ty(b);
                let grown = Ty::union2(&cur, &ty);
                if !grown.eq_ty(&cur) {
                    changed = true;
                    if b < ctx.types.len() {
                        let ghost before = ctx.types@;
                        ctx.types.set(b, Option::Some(grown));
                        proof {
                            assert forall|j: int|
                                0 <= j < ctx.types@.len() && (#[trigger] ctx.types@[j]) is Some
                                    implies wf_ty(ty_v(ctx.types@[j]->0)) by {
                                if j != b {
                                    assert(ctx.types@[j] == before[j]);
                                }
                            }
                            assert forall|j: int|
                                0 <= j < bindings.types@.len() && j < bindings.expressions@.len()
                                    && (#[trigger] bindings.expressions@[j])@.len() == 0 implies
                                ctx.types@[j] is Some && ty_v(ctx.types@[j]->0) == (
                                match bindings.types@[j] {
                                    Option::Some(t) => ty_v(t),
                                    Option::None => crate::ty::never_v(),
                                }) by {
                                if j != b {
                                    assert(ctx.types@[j] == before[j]);
                                }
                            }
                        }
                    }
                }
            }
        }
        if !changed {
            converged = true;
        }
        round = round + 1;
    }
    if !converged {
        ctx.approximations.push(
            Approximation::new("Fixed point", "binding solving did not converge"),
        );
    }
    // Check every floating expression, looking for failures.
    let nc = bindings.check.len();
    for i in 0..nc
        invariant
            nc == bindings.check@.len(),
            crate::syntax::module_wf(m),
            ctx_wf(&ctx),
            ctx.oracle == oracle,
            ctx.global_docs == global_docs,
            solve_keep(bindings, &ctx),
    {
        let e = bindings.check[i];
        ctx.expression_type(m, e);
    }
    // Check every declared-type obligation: annotations and returns.
    let nt = bindings.check_type.len();
    for i in 0..nt
        invariant
            nt == bindings.check_type@.len(),
            crate::syntax::module_wf(m),
            crate::bindings::bindings_tys_wf(bindings),
            ctx_wf(&ctx),
            ctx.oracle == oracle,
            ctx.global_docs == global_docs,
            solve_keep(bindings, &ctx),
    {
        let span = bindings.check_type[i].0;
        let ty = match bindings.check_type[i].1 {
            Option::None => Ty::none(),
            Option::Some(e) => ctx.expression_type(m, e),
        };
        let require = &bindings.check_type[i].2;
        ctx.validate_type(&ty, require, span);
    }
    ctx
}

/// The exported names of a module: the name of each top-level binding, in
/// order, first occurrence only (a shadowing top-level slot of the same
/// name exports no second entry).
pub open spec fn exported_names_v(
    metas: Seq<crate::syntax::BindingMeta>,
    i: int,
    acc: Seq<Seq<char>>,
) -> Seq<Seq<char>>
    decreases metas.len() - i,
{
    if i < 0 || i >= metas.len() {
        acc
    } else if metas[i].top_level && !acc.contains(metas[i].name@) {
        exported_names_v(metas, i + 1, acc.push(metas[i].name@))
    } else {
        exported_names_v(metas, i + 1, acc)
    }
}

/// The rows of an interface, as name and type views.
pub open spec fn rows_of_v(rows: Seq<(String, Ty)>) -> Seq<(Seq<char>, crate::ty::TyV)> {
    Seq::new(rows.len(), |j: int| (rows[j].0@, ty_v(rows[j].1)))
}

/// The rows a module exports over a solved type table: one row per
/// top-level binding, in slot order, first occurrence of each name only,
/// carrying that slot's solved type (`Never` where the table holds none).
pub open spec fn exported_rows_v(
    metas: Seq<crate::syntax::BindingMeta>,
    types: Seq<Option<Ty>>,
    i: int,
    acc: Seq<(Seq<char>, crate::ty::TyV)>,
) -> Seq<(Seq<char>, crate::ty::TyV)>
    decreases metas.len() - i,
{
    if i < 0 || i >= metas.len() {
        acc
    } else if metas[i].top_level && !(exists|j: int|
        0 <= j < acc.len() && (#[trigger] acc[j]).0 == metas[i].name@) {
        exported_rows_v(
            metas,
            types,
            i + 1,
            acc.push((metas[i].name@, crate::ctx::binding_ty_v(types, i as usize))),
        )
    } else {
        exported_rows_v(metas, types, i + 1, acc)
    }
}

/// Whether an entry under `name` is already exported.
fn contains_name(v: &Vec<(String, Ty)>, name: &String) -> (r: bool)
    ensures
        r == crate::bindings::interface_names_v(v@).contains(name@),
{
    let n = v.len();
    for i in 0..n
        invariant
            n == v@.len(),
            forall|j: int| 0 <= j < i ==> (#[trigger] v@[j]).0@ != name@,
    {
        if v[i].0 == *name {
            proof {
                assert(crate::bindings::interface_names_v(v@)[i as int] == name@);
            }
            return true;
        }
    }
    proof {
        if crate::bindings::interface_names_v(v@).contains(name@) {
            let j = choose|j: int|
                0 <= j < v@.len() && crate::bindings::interface_names_v(v@)[j] == name@;
            assert(v@[j].0@ == name@);
        }
    }
    false
}

/// Check a whole module: collect the bindings, solve them, run every check,
/// and project the top-level binding types into the module's interface.
/// Returns the interface, the violations and the approximations. A module
/// that failed earlier compilation phases still exports its top-level
/// names, all at `Any`, with an approximation recorded rather than an
/// error or a panic.
pub fn check_module(m: &AstModule, oracle: TypingOracle, global_docs: OracleDocs) -> (r: (
    Interface,
    Vec<TypingError>,
    Vec<Approximation>,
))
    requires
        crate::syntax::module_wf(m),
        wf_oracle(&oracle),
        wf_docs(&global_docs),
    ensures
        crate::bindings::interface_wf(&r.0),
        crate::bindings::interface_names_v(r.0.bindings@) == exported_names_v(
            m.names@,
            0,
            Seq::empty(),
        ),
        match crate::bindings::collect_v(m) {
            crate::bindings::CollectOut::Done(st) => exists|solved: Seq<Option<Ty>>|
                #![trigger exported_rows_v(m.names@, solved, 0, Seq::empty())]
                rows_of_v(r.0.bindings@) == exported_rows_v(m.names@, solved, 0, Seq::empty())
                    && solved.len() == st.types.len() && (forall|j: int|
                    0 <= j < st.types.len() && j < st.expressions.len()
                        && st.expressions[j].len() == 0 ==> (#[trigger] solved[j]) is Some && ty_v(
                        solved[j]->0,
                    ) == (match st.types[j] {
                        Option::Some(tv) => tv,
                        Option::None => crate::ty::never_v(),
                    })) && r.2@.len() >= st.approx.len() && (forall|j: int|
                    0 <= j < st.approx.len() ==> ((#[trigger] r.2@[r.2@.len() - st.approx.len()
                        + j]).category@, r.2@[r.2@.len() - st.approx.len() + j].message@)
                        == st.approx[j]),
            crate::bindings::CollectOut::Fail(_) => (forall|j: int|
                0 <= j < r.0.bindings@.len() ==> ty_v((#[trigger] r.0.bindings@[j]).1)
                    == crate::ty::any_v()) && r.1@.len() == 0 && r.2@.len() == 1
                && r.2@[0].category@ == "Malformed input"@,
        },
{
    let collected = match BindingsCollect::collect(m) {
        Result::Ok(c) => c,
        Result::Err(_) => {
            let mut exported: Vec<(String, Ty)> = Vec::new();
            let nb = m.names.len();
            proof {
                assert(crate::bindings::interface_names_v(exported@) =~= Seq::<Seq<char>>::empty());
            }
            for i in 0..nb
                invariant
                    nb == m.names@.len(),
                    forall|j: int|
                        0 <= j < exported@.len() ==> wf_ty(ty_v((#[trigger] exported@[j]).1)),
                    forall|j: int|
                        0 <= j < exported@.len() ==> ty_v((#[trigger] exported@[j]).1)
                            == crate::ty::any_v(),
                    forall|j: int, k: int|
                        0 <= j < k < exported@.len() ==> (#[trigger] exported@[j]).0@ != (
                        #[trigger] exported@[k]).0@,
                    exported_names_v(
                        m.names@,
                        i as int,
                        crate::bindings::interface_names_v(exported@),
                    ) == exported_names_v(m.names@, 0, Seq::empty()),
            {
                let ghost before = crate::bindings::interface_names_v(exported@);
                let ghost prev = exported@;
                if m.names[i].top_level && !contains_name(&exported, &m.names[i].name) {
                    let name = m.names[i].name.clone();
                    exported.push((name, Ty::any()));
                    proof {
                        assert forall|j: int|
                            0 <= j < prev.len() implies (#[trigger] prev[j]).0@ != m.names@[
                            i as int
                        ].name@ by {
                            assert(before[j] == prev[j].0@);
                        }
                        assert(crate::bindings::interface_names_v(exported@) =~= before.push(
                            m.names@[i as int].name@,
                        ));
                    }
                }
            }
            let iface = Interface::new(exported);
            let errors: Vec<TypingError> = Vec::new();
            let mut approximations: Vec<Approximation> = Vec::new();
            approximations.push(
                Approximation::new("Malformed input", "an assignment target did not resolve"),
            );
            return (iface, errors, approximations);
        },
    };
    let ghost stg = crate::bindings::st_of(collected);
    let octx = TypingOracleCtx::new(oracle);
    let ctx = solve_bindings(m, &collected.bindings, octx, global_docs);
    let ghost solvedv = ctx.types@;
    let mut exported: Vec<(String, Ty)> = Vec::new();
    let nb = m.names.len();
    proof {
        assert(crate::bindings::interface_names_v(exported@) =~= Seq::<Seq<char>>::empty());
        assert(rows_of_v(exported@) =~= Seq::<(Seq<char>, crate::ty::TyV)>::empty());
    }
    for i in 0..nb
        invariant
            nb == m.names@.len(),
            ctx_wf(&ctx),
            solvedv == ctx.types@,
            forall|j: int| 0 <= j < exported@.len() ==> wf_ty(ty_v((#[trigger] exported@[j]).1)),
            forall|j: int, k: int|
                0 <= j < k < exported@.len() ==> (#[trigger] exported@[j]).0@ != (
                #[trigger] exported@[k]).0@,
            exported_names_v(
                m.names@,
                i as int,
                crate::bindings::interface_names_v(exported@),
            ) == exported_names_v(m.names@, 0, Seq::empty()),
            exported_rows_v(m.names@, solvedv, i as int, rows_of_v(exported@))
                == exported_rows_v(m.names@, solvedv, 0, Seq::empty()),
    {
        let ghost before = crate::bindings::interface_names_v(exported@);
        let ghost prev = exported@;
        let ghost nm = m.names@[i as int].name@;
        proof {
            assert forall|j: int| 0 <= j < prev.len() implies (#[trigger] rows_of_v(prev)[j]).0
                == before[j] by {}
        }
        if m.names[i].top_level && !contains_name(&exported, &m.names[i].name) {
            let name = m.names[i].name.clone();
            let ty = ctx.binding_ty(i);
            let ghost tyv = ty@;
            exported.push((name, ty));
            proof {
                assert forall|j: int|
                    0 <= j < prev.len() implies (#[trigger] prev[j]).0@ != m.names@[i as int].name@
                    by {
                    assert(before[j] == prev[j].0@);
                }
                assert(crate::bindings::interface_names_v(exported@) =~= before.push(
                    m.names@[i as int].name@,
                ));
                assert(!(exists|j: int|
                    0 <= j < rows_of_v(prev).len() && (#[trigger] rows_of_v(prev)[j]).0 == nm));
                assert(tyv == crate::ctx::binding_ty_v(solvedv, i));
                assert(rows_of_v(exported@) =~= rows_of_v(prev).push((nm, tyv)));
                assert(exported_rows_v(m.names@, solvedv, i as int, rows_of_v(prev))
                    == exported_rows_v(m.names@, solvedv, i + 1, rows_of_v(exported@)));
            }
        } else {
            proof {
                if m.names@[i as int].top_level {
                    let ghost w = choose|j: int|
                        0 <= j < before.len() && before[j] == nm;
                    assert(rows_of_v(prev)[w].0 == nm);
                    assert(exists|j: int|
                        0 <= j < rows_of_v(prev).len() && (#[trigger] rows_of_v(prev)[j]).0 == nm);
                }
                assert(exported_rows_v(m.names@, solvedv, i as int, rows_of_v(prev))
                    == exported_rows_v(m.names@, solvedv, i + 1, rows_of_v(prev)));
            }
        }
    }
    let iface = Interface::new(exported);
    proof {
        assert(rows_of_v(iface.bindings@) == exported_rows_v(m.names@, solvedv, 0, Seq::empty()));
        assert(solvedv.len() == stg.types.len());
        assert forall|j: int|
            0 <= j < stg.types.len() && j < stg.expressions.len() && (
            #[trigger] stg.expressions[j]).len() == 0 implies solvedv[j] is Some && ty_v(
            solvedv[j]->0,
        ) == (match stg.types[j] {
            Option::Some(tv) => tv,
            Option::None => crate::ty::never_v(),
        }) by {
            assert(stg.expressions[j] == crate::bindings::rows_v(
                collected.bindings.expressions@,
            )[j]);
            assert(stg.types[j] == crate::bindings::opt_tys_v(collected.bindings.types@)[j]);
            assert((collected.bindings.expressions@[j])@.len() == 0);
        }
    }
    let mut errors = ctx.errors;
    let mut approximations = ctx.approximations;
    let ghost base = approximations@.len();
    let nc = collected.approximations.len();
    let capprox = collected.approximations;
    proof {
        assert(capprox@.len() == stg.approx.len());
    }
    for i in 0..nc
        invariant
            nc == capprox@.len(),
            nc == stg.approx.len(),
            crate::bindings::interface_wf(&iface),
            approximations@.len() == base + i,
            forall|j: int|
                0 <= j < nc ==> ((#[trigger] capprox@[j]).category@, capprox@[j].message@)
                    == stg.approx[j],
            forall|j: int|
                0 <= j < i ==> ((#[trigger] approximations@[base + j]).category@,
                approximations@[base + j].message@) == stg.approx[j],
    {
        let a = Approximation {
            category: capprox[i].category.clone(),
            message: capprox[i].message.clone(),
        };
        approximations.push(a);
    }
    (iface, errors, approximations)
}

} // verus!
