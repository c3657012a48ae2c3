//! Graph builder: consumes notes-stream records and reconstructs, per
//! function, a directed graph of basic blocks and arcs annotated with
//! source-line attributions.
//!
//! The builder is a state machine over the record sequence: a function
//! record opens a new function (closing the previous one), a blocks record
//! allocates its basic blocks, arc records append edges between declared
//! blocks, and line records attach `(path, line)` pairs to one block, taking
//! the path from the preceding set-path marker. A record out of place, an
//! index out of range, or a function left without blocks is a
//! `CovError::Graph`: the whole decode fails rather than returning a partial
//! graph.

use crate::error::CovError;
use crate::interner::{intern_id, intern_w, Interner, SymbolId};
use crate::reader::{
    records_view, LineItem, LineItemView, Record, RecordView, ARC_FAKE, ARC_FALLTHROUGH,
    ARC_ON_TREE,
};
use vstd::prelude::*;

verus! {

/// A basic block: the `(path, line)` attributions that map it to source
/// lines. A block may carry several attributions due to inlining and macro
/// expansion.
#[derive(Debug)]
pub struct BlockCov {
    /// Line attributions `(interned path, line number)`.
    pub lines: Vec<(SymbolId, u32)>,
}

impl View for BlockCov {
    type V = Seq<(SymbolId, u32)>;

    open spec fn view(&self) -> Seq<(SymbolId, u32)> {
        self.lines@
    }
}

/// A directed arc `(src, dst)` between two blocks of one function.
#[derive(Clone, Copy, Debug)]
pub struct ArcCov {
    /// Index of the source block.
    pub src: usize,
    /// Index of the destination block.
    pub dst: usize,
    /// Selected by the spanning-tree instrumentation: carries a literal counter.
    pub on_tree: bool,
    /// Not a real control edge (e.g. exception unwind).
    pub fake: bool,
    /// Fall-through edge.
    pub fallthrough: bool,
    /// Execution count; `None` until merging and inference resolve it.
    pub count: Option<u64>,
}

/// A function's control-flow graph, with interned name and source path.
#[derive(Debug)]
pub struct FunctionCov {
    /// Identifier shared between the notes and data streams.
    pub ident: u32,
    /// Checksum that any merged data stream must match.
    pub checksum: u32,
    /// Interned function name.
    pub name: SymbolId,
    /// Interned source path of the function itself.
    pub path: SymbolId,
    /// Starting line.
    pub line: u32,
    /// Basic blocks; block 0 is the entry block, the last block is the exit.
    pub blocks: Vec<BlockCov>,
    /// Directed arcs between blocks, in declaration order.
    pub arcs: Vec<ArcCov>,
}

/// Mathematical model of a `FunctionCov`.
#[verifier::ext_equal]
pub struct FunctionView {
    pub ident: u32,
    pub checksum: u32,
    pub name: SymbolId,
    pub path: SymbolId,
    pub line: u32,
    pub blocks: Seq<Seq<(SymbolId, u32)>>,
    pub arcs: Seq<ArcCov>,
}

impl View for FunctionCov {
    type V = FunctionView;

    open spec fn view(&self) -> FunctionView {
        FunctionView {
            ident: self.ident,
            checksum: self.checksum,
            name: self.name,
            path: self.path,
            line: self.line,
            blocks: self.blocks@.map_values(|b: BlockCov| b@),
            arcs: self.arcs@,
        }
    }
}

/// The view of a whole function list.
pub open spec fn functions_view(fs: Seq<FunctionCov>) -> Seq<FunctionView> {
    fs.map_values(|f: FunctionCov| f@)
}

/// Every arc of `f` runs between declared blocks.
pub open spec fn fn_arcs_ok(f: FunctionView) -> bool {
    forall|i: int|
        0 <= i < f.arcs.len() ==> (#[trigger] f.arcs[i]).src < f.blocks.len() && f.arcs[i].dst
            < f.blocks.len()
}

/// Structural well-formedness: at least one block, arcs between declared blocks.
pub open spec fn fn_wf(f: FunctionView) -> bool {
    &&& f.blocks.len() >= 1
    &&& fn_arcs_ok(f)
}

/// All symbol ids of `f` fall inside a store of `n` strings.
pub open spec fn fn_syms_ok(f: FunctionView, n: int) -> bool {
    &&& f.name < n
    &&& f.path < n
    &&& forall|b: int, k: int|
        0 <= b < f.blocks.len() && 0 <= k < f.blocks[b].len() ==> (#[trigger] f.blocks[b][k]).0 < n
}

/// No arc of `f` carries a count yet.
pub open spec fn fn_counts_none(f: FunctionView) -> bool {
    forall|i: int| 0 <= i < f.arcs.len() ==> (#[trigger] f.arcs[i]).count is None
}

/// State of the builder: finished functions, the open function, the current
/// line-attribution path, and the interner's contents.
#[verifier::ext_equal]
pub struct BuildView {
    pub done: Seq<FunctionView>,
    pub cur: Option<FunctionView>,
    pub cur_path: Option<SymbolId>,
    pub syms: Seq<Seq<u8>>,
}

/// The arc a `(destination, flags)` pair out of `src` decodes to.
pub open spec fn arc_of(src: usize, p: (u32, u32)) -> ArcCov {
    ArcCov {
        src,
        dst: p.0 as usize,
        on_tree: p.1 & ARC_ON_TREE != 0,
        fake: p.1 & ARC_FAKE != 0,
        fallthrough: p.1 & ARC_FALLTHROUGH != 0,
        count: None,
    }
}

/// The arcs a whole pair list out of `src` decodes to.
pub open spec fn arcs_of(src: usize, pairs: Seq<(u32, u32)>) -> Seq<ArcCov> {
    pairs.map_values(|p: (u32, u32)| arc_of(src, p))
}

/// Every destination in the pair list names a declared block.
pub open spec fn arcs_ok(pairs: Seq<(u32, u32)>, nblocks: int) -> bool {
    forall|i: int| 0 <= i < pairs.len() ==> (#[trigger] pairs[i]).0 < nblocks
}

/// Closes the open function: a function without blocks is a `Graph` error
/// (unterminated declaration); otherwise it joins the finished list.
pub open spec fn close_cur(st: BuildView) -> Result<BuildView, CovError> {
    match st.cur {
        None => Ok(st),
        Some(f) => if f.blocks.len() == 0 {
            Err(CovError::Graph)
        } else {
            Ok(BuildView { done: st.done.push(f), cur: None, cur_path: st.cur_path, syms: st.syms })
        },
    }
}

/// `f` with block `b`'s attribution list replaced.
pub open spec fn with_lines(f: FunctionView, b: int, lines: Seq<(SymbolId, u32)>) -> FunctionView {
    FunctionView { blocks: f.blocks.update(b, lines), ..f }
}

/// Applies the items of one line record to block `b` of the open function.
pub open spec fn apply_line_items(st: BuildView, b: int, items: Seq<LineItemView>) -> Result<
    BuildView,
    CovError,
>
    decreases items.len(),
{
    if items.len() == 0 {
        Ok(st)
    } else {
        match items[0] {
            LineItemView::SetPath(s) => apply_line_items(
                BuildView {
                    cur_path: Some(intern_id(st.syms, s) as usize),
                    syms: intern_w(st.syms, s),
                    ..st
                },
                b,
                items.drop_first(),
            ),
            LineItemView::Line(l) => match st.cur_path {
                None => Err(CovError::Graph),
                Some(pid) => match st.cur {
                    None => Err(CovError::Graph),
                    Some(f) => apply_line_items(
                        BuildView {
                            cur: Some(with_lines(f, b, f.blocks[b].push((pid, l)))),
                            ..st
                        },
                        b,
                        items.drop_first(),
                    ),
                },
            },
        }
    }
}

/// One step of the builder's state machine.
pub open spec fn build_step(st: BuildView, r: RecordView) -> Result<BuildView, CovError> {
    match r {
        RecordView::Function { ident, checksum, name, path, line } => match close_cur(st) {
            Err(e) => Err(e),
            Ok(st1) => {
                let nid = intern_id(st1.syms, name) as usize;
                let w1 = intern_w(st1.syms, name);
                let pid = intern_id(w1, path) as usize;
                let w2 = intern_w(w1, path);
                Ok(
                    BuildView {
                        done: st1.done,
                        cur: Some(
                            FunctionView {
                                ident,
                                checksum,
                                name: nid,
                                path: pid,
                                line,
                                blocks: Seq::empty(),
                                arcs: Seq::empty(),
                            },
                        ),
                        cur_path: None,
                        syms: w2,
                    },
                )
            },
        },
        RecordView::Blocks { count } => match st.cur {
            None => Err(CovError::Graph),
            Some(f) => if f.blocks.len() != 0 || count == 0 {
                Err(CovError::Graph)
            } else {
                Ok(
                    BuildView {
                        cur: Some(
                            FunctionView {
                                blocks: Seq::new(
                                    count as nat,
                                    |i: int| Seq::<(SymbolId, u32)>::empty(),
                                ),
                                ..f
                            },
                        ),
                        ..st
                    },
                )
            },
        },
        RecordView::Arcs { src, arcs } => match st.cur {
            None => Err(CovError::Graph),
            Some(f) => if f.blocks.len() == 0 || src as int >= f.blocks.len() || !arcs_ok(
                arcs,
                f.blocks.len() as int,
            ) {
                Err(CovError::Graph)
            } else {
                Ok(
                    BuildView {
                        cur: Some(FunctionView { arcs: f.arcs + arcs_of(src as usize, arcs), ..f }),
                        ..st
                    },
                )
            },
        },
        RecordView::Lines { block, items } => match st.cur {
            None => Err(CovError::Graph),
            Some(f) => if f.blocks.len() == 0 || block as int >= f.blocks.len() {
                Err(CovError::Graph)
            } else {
                apply_line_items(st, block as int, items)
            },
        },
        RecordView::FunctionData { .. } => Err(CovError::Graph),
        RecordView::Counts { .. } => Err(CovError::Graph),
    }
}

/// Folds the state machine over a record sequence.
pub open spec fn build_fold(records: Seq<RecordView>, st: BuildView) -> Result<BuildView, CovError>
    decreases records.len(),
{
    if records.len() == 0 {
        Ok(st)
    } else {
        match build_step(st, records[0]) {
            Ok(st2) => build_fold(records.drop_first(), st2),
            Err(e) => Err(e),
        }
    }
}

/// The builder's starting state over an interner with contents `w0`.
pub open spec fn init_state(w0: Seq<Seq<u8>>) -> BuildView {
    BuildView { done: Seq::empty(), cur: None, cur_path: None, syms: w0 }
}

/// What building from a record sequence yields: the function list and the
/// interner contents afterwards.
pub open spec fn spec_build(records: Seq<RecordView>, w0: Seq<Seq<u8>>) -> Result<
    (Seq<FunctionView>, Seq<Seq<u8>>),
    CovError,
> {
    match build_fold(records, init_state(w0)) {
        Ok(st) => match close_cur(st) {
            Ok(st2) => Ok((st2.done, st2.syms)),
            Err(e) => Err(e),
        },
        Err(e) => Err(e),
    }
}

/// The view of the builder's executable state.
pub open spec fn exec_state(
    done: Seq<FunctionCov>,
    cur: Option<FunctionCov>,
    cur_path: Option<SymbolId>,
    syms: Seq<Seq<u8>>,
) -> BuildView {
    BuildView {
        done: functions_view(done),
        cur: match cur {
            Some(f) => Some(f@),
            None => None,
        },
        cur_path,
        syms,
    }
}

/// Symbol, arc and count facts that every open function maintains.
pub open spec fn cur_partial_ok(f: FunctionView, n: int) -> bool {
    &&& fn_arcs_ok(f)
    &&& fn_syms_ok(f, n)
    &&& fn_counts_none(f)
}

/// Builds the per-function control-flow graphs from a notes-stream record
/// list, interning names and paths as they are seen.
///
/// Exactly the record sequences accepted by the state machine `spec_build`
/// yield `Ok`; any malformed sequence yields the error `spec_build` gives,
/// and no partial graph.
#[verifier::rlimit(100)]
pub fn build_graph(records: &Vec<Record>, interner: &mut Interner) -> (r: Result<
    Vec<FunctionCov>,
    CovError,
>)
    requires
        old(interner).wf(),
    ensures
        final(interner).wf(),
        match r {
            Ok(fs) => {
                &&& spec_build(records_view(records@), old(interner)@) == Ok::<_, CovError>(
                    (functions_view(fs@), final(interner)@),
                )
                &&& forall|i: int|
                    0 <= i < fs@.len() ==> fn_wf(#[trigger] functions_view(fs@)[i]) && fn_syms_ok(
                        functions_view(fs@)[i],
                        final(interner)@.len() as int,
                    ) && fn_counts_none(functions_view(fs@)[i])
            },
            Err(e) => spec_build(records_view(records@), old(interner)@) == Err::<
                (Seq<FunctionView>, Seq<Seq<u8>>),
                _,
            >(e),
        },
{
    let ghost all = records_view(records@);
    let ghost w0 = interner@;
    let n = records.len();
    let mut done: Vec<FunctionCov> = Vec::new();
    let mut cur: Option<FunctionCov> = None;
    let mut cur_path: Option<SymbolId> = None;
    let mut idx: usize = 0;
    proof {
        assert(all.skip(0) =~= all);
        assert(functions_view(done@) =~= Seq::<FunctionView>::empty());
        assert(exec_state(done@, cur, cur_path, interner@) =~~= init_state(w0));
    }
    while idx < n
        invariant
            interner.wf(),
            n == records@.len(),
            0 <= idx <= n,
            all == records_view(records@),
            w0 == old(interner)@,
            build_fold(all, init_state(w0)) == build_fold(
                all.skip(idx as int),
                exec_state(done@, cur, cur_path, interner@),
            ),
            forall|i: int|
                0 <= i < done@.len() ==> fn_wf(#[trigger] functions_view(done@)[i]) && fn_syms_ok(
                    functions_view(done@)[i],
                    interner@.len() as int,
                ) && fn_counts_none(functions_view(done@)[i]),
            match cur {
                Some(f) => cur_partial_ok(f@, interner@.len() as int),
                None => true,
            },
            match cur_path {
                Some(p) => p < interner@.len(),
                None => true,
            },
        decreases n - idx,
    {
        let ghost st0 = exec_state(done@, cur, cur_path, interner@);
        proof {
            assert(all.skip(idx as int)[0] == all[idx as int]);
            assert(all.skip(idx as int).drop_first() =~= all.skip(idx as int + 1));
            assert(all[idx as int] == records@[idx as int]@);
        }
        let rec = &records[idx];
        let prev_cur = cur;
        cur = None;
        match rec {
            Record::Function { ident, checksum, name, path, line } => {
                match prev_cur {
                    None => {},
                    Some(f) => {
                        if f.blocks.len() == 0 {
                            proof {
                                assert(build_step(st0, all[idx as int]) == Err::<
                                    BuildView,
                                    CovError,
                                >(CovError::Graph));
                            }
                            return Err(CovError::Graph);
                        }
                        let ghost prev_done = done@;
                        done.push(f);
                        proof {
                            assert(functions_view(done@) =~= functions_view(prev_done).push(f@));
                        }
                    },
                }
                let nid = interner.intern(name.clone());
                let pid = interner.intern(path.clone());
                cur = Some(
                    FunctionCov {
                        ident: *ident,
                        checksum: *checksum,
                        name: nid,
                        path: pid,
                        line: *line,
                        blocks: Vec::new(),
                        arcs: Vec::new(),
                    },
                );
                cur_path = None;
                proof {
                    let stn = exec_state(done@, cur, cur_path, interner@);
                    match build_step(st0, all[idx as int]) {
                        Ok(st1) => {
                            assert(st1 =~~= stn);
                        },
                        Err(_) => {
                            assert(false);
                        },
                    }
                }
            },
            Record::Blocks { count } => {
                let mut f = match prev_cur {
                    None => {
                        proof {
                            assert(build_step(st0, all[idx as int]) == Err::<BuildView, CovError>(
                                CovError::Graph,
                            ));
                        }
                        return Err(CovError::Graph);
                    },
                    Some(f) => f,
                };
                if f.blocks.len() != 0 || *count == 0 {
                    proof {
                        assert(build_step(st0, all[idx as int]) == Err::<BuildView, CovError>(
                            CovError::Graph,
                        ));
                    }
                    return Err(CovError::Graph);
                }
                let cnt = *count as usize;
                let mut blocks: Vec<BlockCov> = Vec::new();
                let mut k: usize = 0;
                while k < cnt
                    invariant
                        0 <= k <= cnt,
                        blocks@.len() == k,
                        forall|i: int| 0 <= i < k ==> (#[trigger] blocks@[i])@.len() == 0,
                    decreases cnt - k,
                {
                    blocks.push(BlockCov { lines: Vec::new() });
                    k += 1;
                }
                f.blocks = blocks;
                cur = Some(f);
                proof {
                    let stn = exec_state(done@, cur, cur_path, interner@);
                    match build_step(st0, all[idx as int]) {
                        Ok(st1) => {
                            assert(st1 =~~= stn);
                        },
                        Err(_) => {
                            assert(false);
                        },
                    }
                }
            },
            Record::Arcs { src, arcs } => {
                let mut f = match prev_cur {
                    None => {
                        proof {
                            assert(build_step(st0, all[idx as int]) == Err::<BuildView, CovError>(
                                CovError::Graph,
                            ));
                        }
                        return Err(CovError::Graph);
                    },
                    Some(f) => f,
                };
                let nb = f.blocks.len();
                let s = *src as usize;
                if nb == 0 || s >= nb {
                    proof {
                        assert(build_step(st0, all[idx as int]) == Err::<BuildView, CovError>(
                            CovError::Graph,
                        ));
                    }
                    return Err(CovError::Graph);
                }
                let m = arcs.len();
                let ghost orig = f@;
                let ghost rsrc: u32 = *src;
                let mut k: usize = 0;
                while k < m
                    invariant
                        0 <= k <= m,
                        m == arcs@.len(),
                        s < nb,
                        nb == f.blocks@.len(),
                        idx < all.len(),
                        interner.wf(),
                        all == records_view(records@),
                        w0 == old(interner)@,
                        st0.cur == Some(orig),
                        orig.blocks.len() == nb as int,
                        all[idx as int] == (RecordView::Arcs { src: rsrc, arcs: arcs@ }),
                        s == rsrc as usize,
                        build_fold(all, init_state(w0)) == build_fold(all.skip(idx as int), st0),
                        f@.blocks == orig.blocks,
                        f@.ident == orig.ident,
                        f@.checksum == orig.checksum,
                        f@.name == orig.name,
                        f@.path == orig.path,
                        f@.line == orig.line,
                        f.arcs@ =~= orig.arcs + arcs_of(s, arcs@.take(k as int)),
                        arcs_ok(arcs@.take(k as int), nb as int),
                    decreases m - k,
                {
                    let (d, fl) = arcs[k];
                    if d as usize >= nb {
                        proof {
                            assert(all.skip(idx as int)[0] == all[idx as int]);
                            assert(arcs@.take(m as int) =~= arcs@);
                            assert(!arcs_ok(arcs@, nb as int)) by {
                                assert(arcs@[k as int].0 as int >= nb);
                            }
                            assert(build_step(st0, all[idx as int]) == Err::<BuildView, CovError>(
                                CovError::Graph,
                            ));
                        }
                        return Err(CovError::Graph);
                    }
                    f.arcs.push(
                        ArcCov {
                            src: s,
                            dst: d as usize,
                            on_tree: fl & ARC_ON_TREE != 0,
                            fake: fl & ARC_FAKE != 0,
                            fallthrough: fl & ARC_FALLTHROUGH != 0,
                            count: None,
                        },
                    );
                    proof {
                        assert(arcs@.take(k as int + 1) =~= arcs@.take(k as int).push(
                            arcs@[k as int],
                        ));
                        assert(arcs_of(s, arcs@.take(k as int + 1)) =~= arcs_of(
                            s,
                            arcs@.take(k as int),
                        ).push(arc_of(s, arcs@[k as int])));
                    }
                    k += 1;
                }
                proof {
                    assert(arcs@.take(m as int) =~= arcs@);
                }
                cur = Some(f);
                proof {
                    let stn = exec_state(done@, cur, cur_path, interner@);
                    match build_step(st0, all[idx as int]) {
                        Ok(st1) => {
                            assert(st1 =~~= stn);
                        },
                        Err(_) => {
                            assert(false);
                        },
                    }
                }
            },
            Record::Lines { block, items } => {
                let mut f = match prev_cur {
                    None => {
                        proof {
                            assert(build_step(st0, all[idx as int]) == Err::<BuildView, CovError>(
                                CovError::Graph,
                            ));
                        }
                        return Err(CovError::Graph);
                    },
                    Some(f) => f,
                };
                let nb = f.blocks.len();
                let b = *block as usize;
                if nb == 0 || b >= nb {
                    proof {
                        assert(build_step(st0, all[idx as int]) == Err::<BuildView, CovError>(
                            CovError::Graph,
                        ));
                    }
                    return Err(CovError::Graph);
                }
                let mut lines: Vec<(SymbolId, u32)> = Vec::new();
                let nl = f.blocks[b].lines.len();
                let mut t: usize = 0;
                while t < nl
                    invariant
                        0 <= t <= nl,
                        b < f.blocks@.len(),
                        nl == f.blocks@[b as int]@.len(),
                        lines@ =~= f.blocks@[b as int]@.subrange(0, t as int),
                    decreases nl - t,
                {
                    let pair = f.blocks[b].lines[t];
                    lines.push(pair);
                    proof {
                        assert(lines@ =~= f.blocks@[b as int]@.subrange(0, t as int + 1));
                    }
                    t += 1;
                }
                let ghost iv = items@.map_values(|it: LineItem| it@);
                let ghost rb: u32 = *block;
                proof {
                    assert(lines@ =~= f@.blocks[b as int]);
                    assert(with_lines(f@, b as int, lines@) =~~= f@);
                    assert(iv.skip(0) =~= iv);
                }
                let m = items.len();
                let mut k: usize = 0;
                while k < m
                    invariant
                        interner.wf(),
                        0 <= k <= m,
                        m == items@.len(),
                        iv == items@.map_values(|it: LineItem| it@),
                        b < f.blocks@.len(),
                        idx < all.len(),
                        all == records_view(records@),
                        w0 == old(interner)@,
                        st0.cur == Some(f@),
                        all[idx as int] == (RecordView::Lines { block: rb, items: iv }),
                        b == rb as usize,
                        build_fold(all, init_state(w0)) == build_fold(all.skip(idx as int), st0),
                        apply_line_items(st0, b as int, iv) == apply_line_items(
                            BuildView {
                                done: functions_view(done@),
                                cur: Some(with_lines(f@, b as int, lines@)),
                                cur_path: cur_path,
                                syms: interner@,
                            },
                            b as int,
                            iv.skip(k as int),
                        ),
                        cur_partial_ok(with_lines(f@, b as int, lines@), interner@.len() as int),
                        match cur_path {
                            Some(p) => p < interner@.len(),
                            None => true,
                        },
                        forall|i: int|
                            0 <= i < done@.len() ==> fn_wf(#[trigger] functions_view(done@)[i])
                                && fn_syms_ok(functions_view(done@)[i], interner@.len() as int)
                                && fn_counts_none(functions_view(done@)[i]),
                    decreases m - k,
                {
                    proof {
                        assert(iv.skip(k as int)[0] == iv[k as int]);
                        assert(iv.skip(k as int).drop_first() =~= iv.skip(k as int + 1));
                        assert(iv[k as int] == items@[k as int]@);
                    }
                    match &items[k] {
                        LineItem::SetPath(s) => {
                            let pid = interner.intern(s.clone());
                            cur_path = Some(pid);
                        },
                        LineItem::Line(l) => {
                            match cur_path {
                                None => {
                                    proof {
                                        assert(all.skip(idx as int)[0] == all[idx as int]);
                                        assert(apply_line_items(st0, b as int, iv) == Err::<
                                            BuildView,
                                            CovError,
                                        >(CovError::Graph));
                                        assert(build_step(st0, all[idx as int]) == Err::<
                                            BuildView,
                                            CovError,
                                        >(CovError::Graph));
                                    }
                                    return Err(CovError::Graph);
                                },
                                Some(pid) => {
                                    let ghost old_lines = lines@;
                                    lines.push((pid, *l));
                                    proof {
                                        let g = with_lines(f@, b as int, old_lines);
                                        assert(g.blocks[b as int] == old_lines);
                                        assert(with_lines(
                                            g,
                                            b as int,
                                            g.blocks[b as int].push((pid, *l)),
                                        ) =~~= with_lines(f@, b as int, lines@));
                                    }
                                },
                            }
                        },
                    }
                    k += 1;
                }
                proof {
                    assert(iv.skip(m as int) =~= Seq::<LineItemView>::empty());
                }
                let ghost f_before = f@;
                let ghost lines_final = lines@;
                f.blocks[b] = BlockCov { lines };
                proof {
                    assert(f@ =~~= with_lines(f_before, b as int, lines_final));
                }
                cur = Some(f);
                proof {
                    let stn = exec_state(done@, cur, cur_path, interner@);
                    match build_step(st0, all[idx as int]) {
                        Ok(st1) => {
                            assert(st1 =~~= stn);
                        },
                        Err(_) => {
                            assert(false);
                        },
                    }
                }
            },
            Record::FunctionData { .. } => {
                proof {
                    assert(build_step(st0, all[idx as int]) == Err::<BuildView, CovError>(
                        CovError::Graph,
                    ));
                }
                return Err(CovError::Graph);
            },
            Record::Counts { .. } => {
                proof {
                    assert(build_step(st0, all[idx as int]) == Err::<BuildView, CovError>(
                        CovError::Graph,
                    ));
                }
                return Err(CovError::Graph);
            },
        }
        idx += 1;
    }
    proof {
        assert(all.skip(idx as int) =~= Seq::<RecordView>::empty());
        assert(build_fold(all, init_state(w0)) == Ok::<BuildView, CovError>(
            exec_state(done@, cur, cur_path, interner@),
        ));
    }
    match cur {
        None => {
            proof {
                let st_end = exec_state(done@, None, cur_path, interner@);
                assert(close_cur(st_end) == Ok::<BuildView, CovError>(st_end));
            }
            Ok(done)
        },
        Some(f) => {
            if f.blocks.len() == 0 {
                return Err(CovError::Graph);
            }
            let ghost prev_done = done@;
            done.push(f);
            proof {
                assert(functions_view(done@) =~= functions_view(prev_done).push(f@));
            }
            Ok(done)
        },
    }
}

} // verus!
