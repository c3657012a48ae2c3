//! Session driver: ties the reader, graph builder, merger, inference engine
//! and aggregator together over whole byte streams, and exports the result
//! with every interned handle resolved to text.

use crate::aggregate::{aggregate, ExportFile, ExportFn, ExportReport, ExportWarning, Report};
use crate::error::{CovError, Warning};
use crate::graph::{
    build_graph, fn_counts_none, fn_syms_ok, fn_wf, functions_view, spec_build, FunctionCov,
    FunctionView,
};
use crate::aggregate::{files_allowed, report_complete, report_entries_ok, FileStat, LineStat};
use crate::infer::{
    conserved, counts_all_some, counts_of, counts_preserved, infer_counts, merged_arcs, spec_infer,
};
use crate::interner::{Interner, SymbolId};
use crate::merge::{merge_data, same_shape, spec_merge};
use crate::reader::{decode_stream, spec_decode, RecordView, StreamKind};
use crate::sourcepath::{
    identify_source_path_with, registry_shaped, registry_src_path, spec_identify, SourceType,
};
use crate::utils::{bytes_lossy, lossy_decode};
use vstd::prelude::*;

verus! {

/// Decodes a notes stream and builds its function graphs, interning names
/// and paths. Fails exactly when decoding or building fails, with that
/// error.
pub fn process_notes(bytes: &[u8], interner: &mut Interner) -> (r: Result<
    Vec<FunctionCov>,
    CovError,
>)
    requires
        old(interner).wf(),
    ensures
        final(interner).wf(),
        match r {
            Ok(fs) => exists|rs: Seq<RecordView>|
                #[trigger] spec_decode(bytes@, StreamKind::Notes) == Ok::<_, CovError>(rs)
                    && spec_build(rs, old(interner)@) == Ok::<_, CovError>(
                    (functions_view(fs@), final(interner)@),
                ),
            Err(e) => spec_decode(bytes@, StreamKind::Notes) == Err::<Seq<RecordView>, _>(e) || (
            exists|rs: Seq<RecordView>|
                #[trigger] spec_decode(bytes@, StreamKind::Notes) == Ok::<_, CovError>(rs)
                    && spec_build(rs, old(interner)@) == Err::<
                    (Seq<FunctionView>, Seq<Seq<u8>>),
                    _,
                >(e)),
        },
        r is Ok ==> forall|i: int|
            0 <= i < r.unwrap()@.len() ==> fn_wf(#[trigger] functions_view(r.unwrap()@)[i])
                && fn_syms_ok(functions_view(r.unwrap()@)[i], final(interner)@.len() as int)
                && fn_counts_none(functions_view(r.unwrap()@)[i]),
{
    let records = match decode_stream(bytes, StreamKind::Notes) {
        Ok(rs) => rs,
        Err(e) => {
            return Err(e);
        },
    };
    build_graph(&records, interner)
}

/// Decodes one profiling run's data stream and merges its counters into the
/// graph. A decode error aborts the whole file, leaving graph and warnings
/// untouched; checksum mismatches warn per function and merge the rest.
pub fn process_data(functions: &mut Vec<FunctionCov>, bytes: &[u8], warnings: &mut Vec<Warning>) -> (
    r: Result<(), CovError>)
    ensures
        match r {
            Ok(()) => exists|rs: Seq<RecordView>|
                #[trigger] spec_decode(bytes@, StreamKind::Data) == Ok::<_, CovError>(rs) && {
                    let m = spec_merge(functions_view(old(functions)@), rs);
                    functions_view(final(functions)@) == m.0 && final(warnings)@ == old(warnings)@
                        + m.1
                },
            Err(e) => spec_decode(bytes@, StreamKind::Data) == Err::<Seq<RecordView>, _>(e)
                && final(functions)@ == old(functions)@ && final(warnings)@ == old(warnings)@,
        },
        final(functions)@.len() == old(functions)@.len(),
        forall|i: int|
            0 <= i < old(functions)@.len() ==> same_shape(
                #[trigger] functions_view(old(functions)@)[i],
                functions_view(final(functions)@)[i],
            ),
        forall|i: int, n: int|
            0 <= i < old(functions)@.len() && fn_syms_ok(functions_view(old(functions)@)[i], n)
                ==> #[trigger] fn_syms_ok(functions_view(final(functions)@)[i], n),
        forall|i: int|
            0 <= i < old(functions)@.len() && fn_wf(functions_view(old(functions)@)[i])
                ==> fn_wf(#[trigger] functions_view(final(functions)@)[i]),
{
    let records = match decode_stream(bytes, StreamKind::Data) {
        Ok(rs) => rs,
        Err(e) => {
            return Err(e);
        },
    };
    merge_data(functions, &records, warnings);
    proof {
        assert forall|i: int, n: int|
            0 <= i < old(functions)@.len() && fn_syms_ok(functions_view(old(functions)@)[i], n)
                implies #[trigger] fn_syms_ok(functions_view(functions@)[i], n) by {
            crate::merge::lemma_same_shape_wf(
                functions_view(old(functions)@)[i],
                functions_view(functions@)[i],
                n,
            );
        }
        assert forall|i: int|
            0 <= i < old(functions)@.len() && fn_wf(functions_view(old(functions)@)[i]) implies
            fn_wf(#[trigger] functions_view(functions@)[i]) by {
            crate::merge::lemma_same_shape_wf(
                functions_view(old(functions)@)[i],
                functions_view(functions@)[i],
                0,
            );
        }
    }
    Ok(())
}

/// The inference-failure warnings a function list gives rise to, in index
/// order: one `Underconstrained` warning naming each function whose counts
/// the fixed point cannot resolve.
pub open spec fn infer_warns(fs: Seq<FunctionView>) -> Seq<Warning>
    decreases fs.len(),
{
    if fs.len() == 0 {
        Seq::empty()
    } else {
        let head: Seq<Warning> = if crate::infer::spec_infer(fs[0]) is Ok {
            Seq::empty()
        } else {
            seq![Warning { name: fs[0].name, kind: CovError::Underconstrained }]
        };
        head + infer_warns(fs.drop_first())
    }
}

/// Runs arc inference on every function. A function is selected exactly
/// when the resolution fixed point (`spec_infer`) succeeds on it; its counts
/// then equal that fixed point. Each failing function is left untouched,
/// unselected, and warned about by name, in index order.
pub fn resolve_functions(functions: &mut Vec<FunctionCov>, warnings: &mut Vec<Warning>) -> (r: Vec<
    bool,
>)
    ensures
        r@.len() == final(functions)@.len(),
        final(functions)@.len() == old(functions)@.len(),
        forall|i: int|
            0 <= i < r@.len() && r@[i] ==> {
                let f = #[trigger] functions_view(final(functions)@)[i];
                &&& counts_all_some(f.arcs)
                &&& conserved(f)
                &&& same_shape(functions_view(old(functions)@)[i], f)
                &&& counts_preserved(functions_view(old(functions)@)[i].arcs, f.arcs)
            },
        forall|i: int|
            0 <= i < r@.len() && !r@[i] ==> #[trigger] functions_view(final(functions)@)[i]
                == functions_view(old(functions)@)[i],
        final(warnings)@.len() >= old(warnings)@.len(),
        forall|k: int|
            0 <= k < old(warnings)@.len() ==> final(warnings)@[k] == old(warnings)@[k],
        final(warnings)@ == old(warnings)@ + infer_warns(functions_view(old(functions)@)),
        forall|i: int|
            0 <= i < r@.len() ==> r@[i] == (crate::infer::spec_infer(
                functions_view(old(functions)@)[i],
            ) is Ok),
        forall|i: int|
            0 <= i < r@.len() ==> #[trigger] functions_view(final(functions)@)[i]
                == resolved_view(functions_view(old(functions)@)[i]),
        forall|i: int, n: int|
            0 <= i < old(functions)@.len() && fn_syms_ok(functions_view(old(functions)@)[i], n)
                ==> #[trigger] fn_syms_ok(functions_view(final(functions)@)[i], n),
{
    let n = functions.len();
    let mut selected: Vec<bool> = Vec::new();
    let mut i: usize = 0;
    proof {
        let fsv = functions_view(old(functions)@);
        assert(fsv.skip(0) =~= fsv);
        assert(warnings@.skip(old(warnings)@.len() as int) =~= Seq::<Warning>::empty());
        assert(warnings@.subrange(0, old(warnings)@.len() as int) =~= old(warnings)@);
    }
    while i < n
        invariant
            0 <= i <= n,
            n == functions@.len(),
            functions@.len() == old(functions)@.len(),
            selected@.len() == i,
            forall|j: int|
                0 <= j < i && selected@[j] ==> {
                    let f = #[trigger] functions_view(functions@)[j];
                    &&& counts_all_some(f.arcs)
                    &&& conserved(f)
                    &&& same_shape(functions_view(old(functions)@)[j], f)
                    &&& counts_preserved(functions_view(old(functions)@)[j].arcs, f.arcs)
                },
            forall|j: int|
                0 <= j < i && !selected@[j] ==> #[trigger] functions_view(functions@)[j]
                    == functions_view(old(functions)@)[j],
            forall|j: int|
                i <= j < n ==> #[trigger] functions_view(functions@)[j] == functions_view(
                    old(functions)@,
                )[j],
            warnings@.len() >= old(warnings)@.len(),
            forall|k: int| 0 <= k < old(warnings)@.len() ==> warnings@[k] == old(warnings)@[k],
            warnings@.subrange(0, old(warnings)@.len() as int) == old(warnings)@,
            infer_warns(functions_view(old(functions)@)) == warnings@.skip(
                old(warnings)@.len() as int,
            ) + infer_warns(functions_view(old(functions)@).skip(i as int)),
            forall|j: int|
                0 <= j < i ==> selected@[j] == (crate::infer::spec_infer(
                    functions_view(old(functions)@)[j],
                ) is Ok),
            forall|j: int|
                0 <= j < i ==> #[trigger] functions_view(functions@)[j] == resolved_view(
                    functions_view(old(functions)@)[j],
                ),
        decreases n - i,
    {
        let ghost pre = functions_view(functions@);
        let ghost fsv = functions_view(old(functions)@);
        let ghost w0l = old(warnings)@.len() as int;
        let ghost apnd0 = warnings@.skip(w0l);
        proof {
            assert(fsv.skip(i as int)[0] == fsv[i as int]);
            assert(fsv.skip(i as int).drop_first() =~= fsv.skip(i as int + 1));
            assert(pre[i as int] == fsv[i as int]);
        }
        let name = functions[i].name;
        let ok = match infer_counts(&mut functions[i]) {
            Ok(()) => true,
            Err(_) => {
                warnings.push(Warning { name, kind: CovError::Underconstrained });
                proof {
                    assert(warnings@.skip(w0l) =~= apnd0.push(
                        Warning { name, kind: CovError::Underconstrained },
                    ));
                    assert(warnings@.subrange(0, w0l) =~= old(warnings)@);
                    assert(apnd0 + (seq![
                        Warning { name, kind: CovError::Underconstrained },
                    ] + infer_warns(fsv.skip(i as int + 1))) =~= warnings@.skip(w0l)
                        + infer_warns(fsv.skip(i as int + 1)));
                }
                false
            },
        };
        selected.push(ok);
        proof {
            if ok {
                assert(apnd0 + (Seq::<Warning>::empty() + infer_warns(fsv.skip(i as int + 1)))
                    =~= warnings@.skip(w0l) + infer_warns(fsv.skip(i as int + 1)));
            }
            assert(functions_view(functions@) =~= pre.update(i as int, functions@[i as int]@));
            assert(functions_view(functions@)[i as int] == functions@[i as int]@);
            assert(pre[i as int] == functions_view(old(functions)@)[i as int]);
            assert(forall|j: int|
                0 <= j < n && j != i ==> #[trigger] functions_view(functions@)[j] == pre[j]);
            let fi_old = fsv[i as int];
            let fi_new = functions@[i as int]@;
            if ok {
                let c = counts_of(fi_new.arcs);
                assert(spec_infer(fi_old) == Ok::<Seq<Option<u64>>, CovError>(c));
                assert forall|k: int| 0 <= k < fi_new.arcs.len() implies fi_new.arcs[k]
                    == merged_arcs(fi_old.arcs, c)[k] by {
                    assert(c[k] == fi_new.arcs[k].count);
                    assert(fi_old.arcs[k].src == fi_new.arcs[k].src && fi_old.arcs[k].dst
                        == fi_new.arcs[k].dst && fi_old.arcs[k].on_tree == fi_new.arcs[k].on_tree
                        && fi_old.arcs[k].fake == fi_new.arcs[k].fake && fi_old.arcs[
                        k].fallthrough == fi_new.arcs[k].fallthrough);
                }
                assert(fi_new.arcs =~= merged_arcs(fi_old.arcs, c));
                assert(fi_new =~~= resolved_view(fi_old));
            } else {
                assert(resolved_view(fi_old) == fi_old);
            }
        }
        i += 1;
    }
    proof {
        let fsv = functions_view(old(functions)@);
        assert(fsv.skip(n as int) =~= Seq::<FunctionView>::empty());
        assert(old(warnings)@ + warnings@.skip(old(warnings)@.len() as int) =~= warnings@);
    }
    proof {
        assert forall|j: int, m: int|
            0 <= j < old(functions)@.len() && fn_syms_ok(functions_view(old(functions)@)[j], m)
                implies #[trigger] fn_syms_ok(functions_view(functions@)[j], m) by {
            if selected@[j] {
                crate::merge::lemma_same_shape_wf(
                    functions_view(old(functions)@)[j],
                    functions_view(functions@)[j],
                    m,
                );
            }
        }
    }
    selected
}

/// Every entry of `r` says whether the matching interned string classifies
/// into an allowed category, against one fixed registry prefix.
pub open spec fn classification_ok(
    r: Seq<bool>,
    w: Seq<Seq<u8>>,
    allowed: SourceType,
    crates: Seq<char>,
    reg: Option<Seq<char>>,
) -> bool {
    forall|i: int|
        0 <= i < r.len() ==> r[i] == {
            let t = #[trigger] spec_identify(lossy_decode(w[i]), crates, reg).0;
            (allowed.bits & t.bits) == t.bits
        }
}

/// Decides, for every interned string, whether it is a source path of an
/// allowed category, classifying against the workspace path and the cargo
/// registry located from the environment.
pub fn classify_allowed(interner: &Interner, allowed: SourceType, crates_path: &str) -> (r: Vec<
    bool,
>)
    ensures
        r@.len() == interner@.len(),
        exists|reg: Option<Seq<char>>|
            #[trigger] classification_ok(r@, interner@, allowed, crates_path@, reg)
                && registry_shaped(reg),
{
    let reg = registry_src_path();
    let ghost regv: Option<Seq<char>> = match &reg {
        Some(g) => Some(g@),
        None => None,
    };
    let n = interner.len();
    let mut r: Vec<bool> = Vec::new();
    let mut i: usize = 0;
    while i < n
        invariant
            0 <= i <= n,
            n == interner@.len(),
            r@.len() == i,
            regv == (match &reg {
                Some(g) => Some(g@),
                None => None,
            }),
            forall|j: int|
                0 <= j < i ==> r@[j] == {
                    let t = #[trigger] spec_identify(
                        lossy_decode(interner@[j]),
                        crates_path@,
                        regv,
                    ).0;
                    (allowed.bits & t.bits) == t.bits
                },
        decreases n - i,
    {
        let s = bytes_lossy(interner.resolve(i));
        let (t, _stripped) = match &reg {
            Some(g) => identify_source_path_with(s.as_str(), crates_path, Some(g.as_str())),
            None => identify_source_path_with(s.as_str(), crates_path, None),
        };
        r.push(allowed.contains(t));
        i += 1;
    }
    proof {
        assert(classification_ok(r@, interner@, allowed, crates_path@, regv));
        assert(registry_shaped(regv));
    }
    r
}

/// Resolves every interned handle of a report into text. A handle outside
/// the interner resolves to the empty string; the aggregator only produces
/// handles the interner issued.
pub fn export_report(report: &Report, interner: &Interner) -> (r: ExportReport)
    ensures
        files_resolved(r, report.files@, interner@),
{
    proof {
        reveal(files_resolved);
    }
    let nf = report.files.len();
    let mut files: Vec<ExportFile> = Vec::new();
    let mut a: usize = 0;
    while a < nf
        invariant
            0 <= a <= nf,
            nf == report.files@.len(),
            files@.len() == a,
            forall|x: int|
                0 <= x < a ==> {
                    let rf = #[trigger] files@[x];
                    let pf = report.files@[x];
                    &&& (pf.path < interner@.len() ==> rf.path@ == lossy_decode(
                        interner@[pf.path as int],
                    ))
                    &&& rf.functions@.len() == pf.functions@.len()
                    &&& forall|g: int|
                        0 <= g < rf.functions@.len() ==> {
                            let rg = #[trigger] rf.functions@[g];
                            let pg = pf.functions@[g];
                            &&& (pg.name < interner@.len() ==> rg.name@ == lossy_decode(
                                interner@[pg.name as int],
                            ))
                            &&& rg.lines@ == pg.lines@
                        }
                },
        decreases nf - a,
    {
        let pf = &report.files[a];
        let path = resolve_text(interner, pf.path);
        let ng = pf.functions.len();
        let mut fns: Vec<ExportFn> = Vec::new();
        let mut g: usize = 0;
        while g < ng
            invariant
                0 <= g <= ng,
                a < nf == report.files@.len(),
                pf == &report.files@[a as int],
                ng == pf.functions@.len(),
                fns@.len() == g,
                forall|y: int|
                    0 <= y < g ==> {
                        let rg = #[trigger] fns@[y];
                        let pg = pf.functions@[y];
                        &&& (pg.name < interner@.len() ==> rg.name@ == lossy_decode(
                            interner@[pg.name as int],
                        ))
                        &&& rg.lines@ == pg.lines@
                    },
            decreases ng - g,
        {
            let pg = &pf.functions[g];
            let name = resolve_text(interner, pg.name);
            let mut lines: Vec<crate::aggregate::LineStat> = Vec::new();
            let nl = pg.lines.len();
            let mut c: usize = 0;
            while c < nl
                invariant
                    0 <= c <= nl,
                    g < ng,
                    pg == &pf.functions@[g as int],
                    nl == pg.lines@.len(),
                    lines@.len() == c,
                    forall|z: int| 0 <= z < c ==> #[trigger] lines@[z] == pg.lines@[z],
                decreases nl - c,
            {
                lines.push(pg.lines[c]);
                c += 1;
            }
            proof {
                assert(lines@ =~= pg.lines@);
            }
            fns.push(ExportFn { name, lines });
            g += 1;
        }
        files.push(ExportFile { path, functions: fns });
        a += 1;
    }
    ExportReport { files }
}

/// Resolves one interned handle to text; an unknown handle gives the empty
/// string.
pub fn resolve_text(interner: &Interner, id: SymbolId) -> (r: String)
    ensures
        id < interner@.len() ==> r@ == lossy_decode(interner@[id as int]),
{
    if id < interner.len() {
        bytes_lossy(interner.resolve(id))
    } else {
        String::new()
    }
}

/// Resolves the function names of collected warnings for the caller.
pub fn export_warnings(warnings: &Vec<Warning>, interner: &Interner) -> (r: Vec<ExportWarning>)
    ensures
        warns_resolved(r@, warnings@, interner@),
{
    proof {
        reveal(warns_resolved);
    }
    let n = warnings.len();
    let mut r: Vec<ExportWarning> = Vec::new();
    let mut k: usize = 0;
    while k < n
        invariant
            0 <= k <= n,
            n == warnings@.len(),
            r@.len() == k,
            forall|x: int|
                0 <= x < k ==> {
                    let rw = #[trigger] r@[x];
                    &&& rw.kind == warnings@[x].kind
                    &&& (warnings@[x].name < interner@.len() ==> rw.name@ == lossy_decode(
                        interner@[warnings@[x].name as int],
                    ))
                },
        decreases n - k,
    {
        let w = warnings[k];
        let name = resolve_text(interner, w.name);
        r.push(ExportWarning { name, kind: w.kind });
        k += 1;
    }
    r
}


/// A function after inference: its counts replaced by the resolution fixed
/// point when that succeeds, untouched when it fails.
pub open spec fn resolved_view(f: FunctionView) -> FunctionView {
    match spec_infer(f) {
        Ok(c) => FunctionView { arcs: merged_arcs(f.arcs, c), ..f },
        Err(_) => f,
    }
}

/// Every function of a list after inference.
pub open spec fn resolved_all(fs: Seq<FunctionView>) -> Seq<FunctionView> {
    fs.map_values(|g: FunctionView| resolved_view(g))
}

/// The selection a list of functions gets: whether inference succeeds.
pub open spec fn selected_all(fs: Seq<FunctionView>) -> Seq<bool> {
    fs.map_values(|g: FunctionView| spec_infer(g) is Ok)
}

/// The graphs and merge warnings after folding a list of decoded runs, in
/// order.
#[verifier::opaque]
pub open spec fn merge_runs(fs: Seq<FunctionView>, runs: Seq<Seq<RecordView>>) -> (
    Seq<FunctionView>,
    Seq<Warning>,
)
    decreases runs.len(),
{
    if runs.len() == 0 {
        (fs, Seq::empty())
    } else {
        let m = spec_merge(fs, runs[0]);
        let rest = merge_runs(m.0, runs.drop_first());
        (rest.0, m.1 + rest.1)
    }
}

/// Folding one more run merges it into the accumulated state.
pub proof fn lemma_merge_runs_push(
    fs: Seq<FunctionView>,
    runs: Seq<Seq<RecordView>>,
    r: Seq<RecordView>,
)
    ensures
        ({
            let pre = merge_runs(fs, runs);
            let m = spec_merge(pre.0, r);
            merge_runs(fs, runs.push(r)) == (m.0, pre.1 + m.1)
        }),
    decreases runs.len(),
{
    reveal(merge_runs);
    if runs.len() == 0 {
        let m = spec_merge(fs, r);
        assert(runs.push(r)[0] == r);
        assert(runs.push(r).drop_first() =~= Seq::<Seq<RecordView>>::empty());
        assert(merge_runs(m.0, runs.push(r).drop_first()) == (
            m.0,
            Seq::<Warning>::empty(),
        ));
        assert(merge_runs(fs, runs.push(r)).0 == m.0);
        assert(merge_runs(fs, runs.push(r)).1 =~= m.1);
        assert(merge_runs(fs, runs) == (fs, Seq::<Warning>::empty()));
        assert(merge_runs(fs, runs).1 + m.1 =~= m.1);
    } else {
        let m1 = spec_merge(fs, runs[0]);
        lemma_merge_runs_push(m1.0, runs.drop_first(), r);
        assert(runs.push(r)[0] == runs[0]);
        assert(runs.push(r).drop_first() =~= runs.drop_first().push(r));
        let prer = merge_runs(m1.0, runs.drop_first());
        let pre = merge_runs(fs, runs);
        assert(pre == (prer.0, m1.1 + prer.1));
        let m = spec_merge(pre.0, r);
        let rest2 = merge_runs(m1.0, runs.drop_first().push(r));
        assert(rest2 == (m.0, prer.1 + m.1));
        assert(merge_runs(fs, runs.push(r)) == (rest2.0, m1.1 + rest2.1));
        assert(m1.1 + (prer.1 + m.1) =~= (m1.1 + prer.1) + m.1);
        assert(merge_runs(fs, runs.push(r)).1 == pre.1 + m.1);
    }
}


/// The notes stream decodes to `rs`, which builds the graphs `fs0` with
/// the interner contents `syms`.
#[verifier::opaque]
pub open spec fn notes_built(
    notes: Seq<u8>,
    rs: Seq<RecordView>,
    fs0: Seq<FunctionView>,
    syms: Seq<Seq<u8>>,
) -> bool {
    &&& spec_decode(notes, StreamKind::Notes) == Ok::<_, CovError>(rs)
    &&& spec_build(rs, Seq::<Seq<u8>>::empty()) == Ok::<_, CovError>((fs0, syms))
}

/// Every data stream decodes to its run of records.
#[verifier::opaque]
pub open spec fn datas_decode(datas: Seq<Vec<u8>>, runs: Seq<Seq<RecordView>>) -> bool {
    &&& runs.len() == datas.len()
    &&& forall|d: int|
        0 <= d < datas.len() ==> spec_decode(#[trigger] datas[d]@, StreamKind::Data) == Ok::<
            _,
            CovError,
        >(runs[d])
}

/// The exported warnings resolve the collected warnings' names.
#[verifier::opaque]
pub open spec fn warns_resolved(
    warns: Seq<ExportWarning>,
    w: Seq<Warning>,
    syms: Seq<Seq<u8>>,
) -> bool {
    &&& warns.len() == w.len()
    &&& forall|k: int|
        0 <= k < w.len() ==> (#[trigger] warns[k]).kind == w[k].kind && (w[k].name < syms.len()
            ==> warns[k].name@ == lossy_decode(syms[w[k].name as int]))
}

/// The exported report resolves the internal report's handles to text and
/// keeps its line statistics unchanged.
#[verifier::opaque]
pub open spec fn files_resolved(rep: ExportReport, ifiles: Seq<FileStat>, syms: Seq<Seq<u8>>) -> bool {
    &&& rep.files@.len() == ifiles.len()
    &&& forall|a: int|
        0 <= a < ifiles.len() ==> {
            let rf = #[trigger] rep.files@[a];
            let pf = ifiles[a];
            &&& (pf.path < syms.len() ==> rf.path@ == lossy_decode(syms[pf.path as int]))
            &&& rf.functions@.len() == pf.functions@.len()
            &&& forall|g: int|
                0 <= g < rf.functions@.len() ==> {
                    let rg = #[trigger] rf.functions@[g];
                    let pg = pf.functions@[g];
                    &&& (pg.name < syms.len() ==> rg.name@ == lossy_decode(
                        syms[pg.name as int],
                    ))
                    &&& rg.lines@ == pg.lines@
                }
        }
}

/// The full account of a successful session, over the witnesses of its
/// stages: the notes stream decodes and builds, every data stream decodes,
/// the runs merge in order, each function is selected exactly when the
/// inference fixed point succeeds on it, the warnings are the merge and
/// inference warnings with names resolved, and the report is sound and
/// complete for the resolved selected functions under an allowed-category
/// classification whose registry prefix the environment shaped.
#[verifier::opaque]
pub open spec fn session_witness(
    notes: Seq<u8>,
    datas: Seq<Vec<u8>>,
    allowed: SourceType,
    crates: Seq<char>,
    rep: ExportReport,
    warns: Seq<ExportWarning>,
    rs: Seq<RecordView>,
    fs0: Seq<FunctionView>,
    syms: Seq<Seq<u8>>,
    runs: Seq<Seq<RecordView>>,
    pa: Seq<bool>,
    reg: Option<Seq<char>>,
    ifiles: Seq<FileStat>,
) -> bool {
    let fsm = merge_runs(fs0, runs).0;
    &&& notes_built(notes, rs, fs0, syms)
    &&& datas_decode(datas, runs)
    &&& pa.len() == syms.len()
    &&& classification_ok(pa, syms, allowed, crates, reg)
    &&& registry_shaped(reg)
    &&& warns_resolved(warns, merge_runs(fs0, runs).1 + infer_warns(fsm), syms)
    &&& report_entries_ok(resolved_all(fsm), selected_all(fsm), ifiles)
    &&& report_complete(resolved_all(fsm), selected_all(fsm), pa, ifiles)
    &&& files_allowed(ifiles, pa)
    &&& files_resolved(rep, ifiles, syms)
}

/// Packages the stage facts of a finished session into `session_witness`.
proof fn lemma_session_witness(
    notes: Seq<u8>,
    datas: Seq<Vec<u8>>,
    allowed: SourceType,
    crates: Seq<char>,
    rep: ExportReport,
    warns: Seq<ExportWarning>,
    rs: Seq<RecordView>,
    fs0: Seq<FunctionView>,
    syms: Seq<Seq<u8>>,
    runs: Seq<Seq<RecordView>>,
    pa: Seq<bool>,
    reg: Option<Seq<char>>,
    ifiles: Seq<FileStat>,
    fsm: Seq<FunctionView>,
    wfinal: Seq<Warning>,
    rfv: Seq<FunctionView>,
    sel: Seq<bool>,
)
    requires
        notes_built(notes, rs, fs0, syms),
        datas_decode(datas, runs),
        fsm == merge_runs(fs0, runs).0,
        wfinal == merge_runs(fs0, runs).1 + infer_warns(fsm),
        rfv == resolved_all(fsm),
        sel == selected_all(fsm),
        pa.len() == syms.len(),
        classification_ok(pa, syms, allowed, crates, reg),
        registry_shaped(reg),
        warns_resolved(warns, wfinal, syms),
        report_entries_ok(rfv, sel, ifiles),
        report_complete(rfv, sel, pa, ifiles),
        files_allowed(ifiles, pa),
        files_resolved(rep, ifiles, syms),
    ensures
        session_witness(
            notes,
            datas,
            allowed,
            crates,
            rep,
            warns,
            rs,
            fs0,
            syms,
            runs,
            pa,
            reg,
            ifiles,
        ),
{
    reveal(session_witness);
}

/// There are witnesses for every stage of a session that produced this
/// report and these warnings.
pub open spec fn session_accounted(
    notes: Seq<u8>,
    datas: Seq<Vec<u8>>,
    allowed: SourceType,
    crates: Seq<char>,
    rep: ExportReport,
    warns: Seq<ExportWarning>,
) -> bool {
    exists|
        rs: Seq<RecordView>,
        fs0: Seq<FunctionView>,
        syms: Seq<Seq<u8>>,
        runs: Seq<Seq<RecordView>>,
        pa: Seq<bool>,
        reg: Option<Seq<char>>,
        ifiles: Seq<FileStat>,
    |
        #[trigger] session_witness(
            notes,
            datas,
            allowed,
            crates,
            rep,
            warns,
            rs,
            fs0,
            syms,
            runs,
            pa,
            reg,
            ifiles,
        )
}

/// Classifies, aggregates and exports a finished session, packaging the
/// result's account into `session_witness`.
#[verifier::rlimit(100)]
fn assemble_report(
    functions: &Vec<FunctionCov>,
    selected: &Vec<bool>,
    warnings: &Vec<Warning>,
    interner: &Interner,
    allowed: SourceType,
    crates_path: &str,
    Ghost(notesv): Ghost<Seq<u8>>,
    Ghost(datasv): Ghost<Seq<Vec<u8>>>,
    Ghost(nrs): Ghost<Seq<RecordView>>,
    Ghost(fs0): Ghost<Seq<FunctionView>>,
    Ghost(runs): Ghost<Seq<Seq<RecordView>>>,
    Ghost(fsm): Ghost<Seq<FunctionView>>,
) -> (r: (ExportReport, Vec<ExportWarning>))
    requires
        notes_built(notesv, nrs, fs0, interner@),
        datas_decode(datasv, runs),
        fsm == merge_runs(fs0, runs).0,
        functions_view(functions@) == resolved_all(fsm),
        selected@ == selected_all(fsm),
        warnings@ == merge_runs(fs0, runs).1 + infer_warns(fsm),
        selected@.len() == functions@.len(),
        forall|i: int|
            0 <= i < functions@.len() ==> fn_syms_ok(
                #[trigger] functions_view(functions@)[i],
                interner@.len() as int,
            ),
    ensures
        session_accounted(notesv, datasv, allowed, crates_path@, r.0, r.1@),
{
    let path_allowed = classify_allowed(interner, allowed, crates_path);
    let ghost reg = choose|reg: Option<Seq<char>>|
        #[trigger] classification_ok(path_allowed@, interner@, allowed, crates_path@, reg)
            && registry_shaped(reg);
    proof {
        assert forall|i: int| 0 <= i < functions@.len() implies fn_syms_ok(
            #[trigger] functions_view(functions@)[i],
            path_allowed@.len() as int,
        ) by {
        }
    }
    let report = aggregate(functions, selected, &path_allowed);
    let exported = export_report(&report, interner);
    let warns = export_warnings(warnings, interner);
    proof {
        lemma_session_witness(
            notesv,
            datasv,
            allowed,
            crates_path@,
            exported,
            warns@,
            nrs,
            fs0,
            interner@,
            runs,
            path_allowed@,
            reg,
            report.files@,
            fsm,
            warnings@,
            functions_view(functions@),
            selected@,
        );
    }
    let result = (exported, warns);
    proof {
        assert(session_accounted(
            notesv,
            datasv,
            allowed,
            crates_path@,
            result.0,
            result.1@,
        )) by {
            assert(session_witness(
                notesv,
                datasv,
                allowed,
                crates_path@,
                result.0,
                result.1@,
                nrs,
                fs0,
                interner@,
                runs,
                path_allowed@,
                reg,
                report.files@,
            ));
        }
    }
    result
}

/// Runs a whole session: builds the graph from one notes stream, merges any
/// number of data streams, infers the remaining counts, aggregates the
/// statistics of the functions that resolved, filtered to the allowed path
/// categories, and exports everything as text. Warnings name the functions
/// excluded for checksum or inference failures.
#[verifier::rlimit(100)]
pub fn report_session(
    notes: &[u8],
    datas: &Vec<Vec<u8>>,
    allowed: SourceType,
    crates_path: &str,
) -> (r: Result<(ExportReport, Vec<ExportWarning>), CovError>)
    ensures
        match r {
            Ok(rw) => session_accounted(notes@, datas@, allowed, crates_path@, rw.0, rw.1@),
            Err(e) => {
                ||| spec_decode(notes@, StreamKind::Notes) == Err::<Seq<RecordView>, _>(e)
                ||| (exists|rs: Seq<RecordView>|
                    #[trigger] spec_decode(notes@, StreamKind::Notes) == Ok::<_, CovError>(rs)
                        && spec_build(rs, Seq::empty()) == Err::<
                        (Seq<FunctionView>, Seq<Seq<u8>>),
                        _,
                    >(e))
                ||| (exists|d: int|
                    0 <= d < datas@.len() && spec_decode(
                        #[trigger] datas@[d]@,
                        StreamKind::Data,
                    ) == Err::<Seq<RecordView>, _>(e))
            },
        },
{
    let mut interner = Interner::new();
    let mut functions = match process_notes(notes, &mut interner) {
        Ok(fs) => fs,
        Err(e) => {
            return Err(e);
        },
    };
    let ghost interned = interner@;
    let ghost fs0 = functions_view(functions@);
    proof {
        assert(exists|x: Seq<RecordView>| #[trigger] notes_built(notes@, x, fs0, interned)) by {
            reveal(notes_built);
            let x = choose|x: Seq<RecordView>|
                #[trigger] spec_decode(notes@, StreamKind::Notes) == Ok::<_, CovError>(x)
                    && spec_build(x, Seq::<Seq<u8>>::empty()) == Ok::<_, CovError>(
                    (fs0, interned),
                );
            assert(notes_built(notes@, x, fs0, interned));
        }
    }
    let ghost nrs = choose|nrs: Seq<RecordView>| #[trigger] notes_built(notes@, nrs, fs0, interned);
    proof {
        assert(notes_built(notes@, nrs, fs0, interned));
    }
    let ghost mut runs: Seq<Seq<RecordView>> = Seq::empty();
    let mut warnings: Vec<Warning> = Vec::new();
    let nd = datas.len();
    let mut d: usize = 0;
    proof {
        reveal(merge_runs);
        assert(merge_runs(fs0, runs) == (fs0, Seq::<Warning>::empty()));
        assert(warnings@ =~= merge_runs(fs0, runs).1);
    }
    while d < nd
        invariant
            0 <= d <= nd,
            nd == datas@.len(),
            interner.wf(),
            interned == interner@,
            notes_built(notes@, nrs, fs0, interned),
            runs.len() == d as int,
            forall|d2: int|
                0 <= d2 < d ==> spec_decode(#[trigger] datas@[d2]@, StreamKind::Data) == Ok::<
                    _,
                    CovError,
                >(runs[d2]),
            functions_view(functions@) == merge_runs(fs0, runs).0,
            warnings@ == merge_runs(fs0, runs).1,
            forall|i: int|
                0 <= i < functions@.len() ==> fn_wf(#[trigger] functions_view(functions@)[i])
                    && fn_syms_ok(functions_view(functions@)[i], interner@.len() as int),
        decreases nd - d,
    {
        let ghost pre_fv = functions_view(functions@);
        let ghost pre_w = warnings@;
        match process_data(&mut functions, datas[d].as_slice(), &mut warnings) {
            Ok(()) => {},
            Err(e) => {
                proof {
                    assert(spec_decode(datas@[d as int]@, StreamKind::Data) == Err::<
                        Seq<RecordView>,
                        CovError,
                    >(e));
                }
                return Err(e);
            },
        }
        proof {
            let rsd = choose|rsd: Seq<RecordView>|
                #[trigger] spec_decode(datas@[d as int]@, StreamKind::Data) == Ok::<_, CovError>(
                    rsd,
                ) && functions_view(functions@) == spec_merge(pre_fv, rsd).0 && warnings@ == pre_w
                    + spec_merge(pre_fv, rsd).1;
            assert(spec_decode(datas@[d as int]@, StreamKind::Data) == Ok::<_, CovError>(rsd)
                && functions_view(functions@) == spec_merge(pre_fv, rsd).0 && warnings@ == pre_w
                + spec_merge(pre_fv, rsd).1);
            lemma_merge_runs_push(fs0, runs, rsd);
            runs = runs.push(rsd);
            assert(runs[d as int] == rsd);
            assert(forall|d2: int| 0 <= d2 < d ==> runs[d2] == runs.drop_last()[d2]);
            assert(functions_view(functions@) == merge_runs(fs0, runs).0);
            assert(warnings@ == merge_runs(fs0, runs).1);
            assert forall|i: int| 0 <= i < functions@.len() implies fn_wf(
                #[trigger] functions_view(functions@)[i],
            ) && fn_syms_ok(functions_view(functions@)[i], interner@.len() as int) by {
            }
        }
        d += 1;
    }
    let ghost fsm = functions_view(functions@);
    let ghost mw = warnings@;
    let selected = resolve_functions(&mut functions, &mut warnings);
    proof {
        assert(selected@ =~= selected_all(fsm));
        assert(functions_view(functions@) =~= resolved_all(fsm));
        assert(warnings@ == mw + infer_warns(fsm));
    }
    proof {
        assert(merge_runs(fs0, runs).1 + infer_warns(fsm) == warnings@);
        assert(datas_decode(datas@, runs)) by {
            reveal(datas_decode);
            assert(runs.len() == datas@.len());
        }
    }
    let rw = assemble_report(
        &functions,
        &selected,
        &warnings,
        &interner,
        allowed,
        crates_path,
        Ghost(notes@),
        Ghost(datas@),
        Ghost(nrs),
        Ghost(fs0),
        Ghost(runs),
        Ghost(fsm),
    );
    Ok(rw)
}

} // verus!
