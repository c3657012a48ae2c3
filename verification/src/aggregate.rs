//! Aggregator and exporter: folds resolved arc counts into per-line,
//! per-function and per-file statistics, and resolves interned handles back
//! to text only at the export boundary.
//!
//! A block's count is the flow into it (for the entry block, the flow out of
//! it: the function's invocation count). A line's count is the sum of the
//! counts of every block attribution naming it, saturating at the largest
//! 64-bit value; a line is executed when its count is positive. Branch
//! figures sum, over the attributed blocks with more than one real out-arc,
//! the out-arcs and the out-arcs taken.

use crate::error::CovError;
use crate::graph::{fn_syms_ok, functions_view, ArcCov, FunctionCov, FunctionView};
use crate::infer::{in_sum, out_sum};
use crate::interner::SymbolId;
use crate::merge::sat_add64;
use vstd::pervasive::VecAdditionalExecFns;
use vstd::prelude::*;

verus! {

/// Clamps a mathematical count into a 64-bit value.
pub open spec fn sat64(x: int) -> u64 {
    if x > u64::MAX {
        u64::MAX
    } else if x < 0 {
        0u64
    } else {
        x as u64
    }
}

/// A block's count: the flow into it, or out of the entry block.
pub open spec fn block_count_spec(f: FunctionView, b: int) -> int {
    if b == 0 {
        out_sum(f.arcs, 0, f.arcs.len() as int)
    } else {
        in_sum(f.arcs, b, f.arcs.len() as int)
    }
}

/// Number of non-fake arcs out of `b` among the first `upto` arcs.
pub open spec fn out_deg(arcs: Seq<ArcCov>, b: int, upto: int) -> int
    decreases upto,
{
    if upto <= 0 {
        0
    } else {
        out_deg(arcs, b, upto - 1) + if arcs[upto - 1].src == b && !arcs[upto - 1].fake {
            1int
        } else {
            0int
        }
    }
}

/// Number of non-fake arcs out of `b` with a positive count, among the
/// first `upto` arcs.
pub open spec fn out_taken(arcs: Seq<ArcCov>, b: int, upto: int) -> int
    decreases upto,
{
    if upto <= 0 {
        0
    } else {
        out_taken(arcs, b, upto - 1) + if arcs[upto - 1].src == b && !arcs[upto - 1].fake && (
        match arcs[upto - 1].count {
            Some(c) => c > 0,
            None => false,
        }) {
            1int
        } else {
            0int
        }
    }
}

/// Folds one block's contribution to a line's count over its attributions
/// from position `i` on, saturating.
pub open spec fn bl_fold(
    attrs: Seq<(SymbolId, u32)>,
    path: SymbolId,
    line: u32,
    i: int,
    bc: u64,
    acc: u64,
) -> u64
    decreases attrs.len() - i,
{
    if i < 0 || i >= attrs.len() {
        acc
    } else {
        bl_fold(
            attrs,
            path,
            line,
            i + 1,
            bc,
            if attrs[i] == (path, line) {
                sat_add64(acc, bc)
            } else {
                acc
            },
        )
    }
}

/// Folds a line's count over the blocks from `b` on, saturating.
pub open spec fn lt_fold(f: FunctionView, path: SymbolId, line: u32, b: int, acc: u64) -> u64
    decreases f.blocks.len() - b,
{
    if b < 0 || b >= f.blocks.len() {
        acc
    } else {
        lt_fold(
            f,
            path,
            line,
            b + 1,
            bl_fold(f.blocks[b], path, line, 0, sat64(block_count_spec(f, b)), acc),
        )
    }
}

/// The aggregated count of one `(path, line)` attribution of a function.
pub open spec fn line_count_spec(f: FunctionView, path: SymbolId, line: u32) -> u64 {
    lt_fold(f, path, line, 0, 0)
}

/// Folds one block's contribution to a line's branch figures.
pub open spec fn br_fold(
    attrs: Seq<(SymbolId, u32)>,
    path: SymbolId,
    line: u32,
    i: int,
    deg: u64,
    tak: u64,
    acc: (u64, u64),
) -> (u64, u64)
    decreases attrs.len() - i,
{
    if i < 0 || i >= attrs.len() {
        acc
    } else {
        br_fold(
            attrs,
            path,
            line,
            i + 1,
            deg,
            tak,
            if attrs[i] == (path, line) && deg > 1 {
                (sat_add64(acc.0, tak), sat_add64(acc.1, deg))
            } else {
                acc
            },
        )
    }
}

/// Folds a line's branch figures over the blocks from `b` on.
pub open spec fn bt_fold(f: FunctionView, path: SymbolId, line: u32, b: int, acc: (u64, u64)) -> (
    u64,
    u64,
)
    decreases f.blocks.len() - b,
{
    if b < 0 || b >= f.blocks.len() {
        acc
    } else {
        bt_fold(
            f,
            path,
            line,
            b + 1,
            br_fold(
                f.blocks[b],
                path,
                line,
                0,
                sat64(out_deg(f.arcs, b, f.arcs.len() as int)),
                sat64(out_taken(f.arcs, b, f.arcs.len() as int)),
                acc,
            ),
        )
    }
}

/// `(branches taken, branches total)` of one line of a function.
pub open spec fn branch_spec(f: FunctionView, path: SymbolId, line: u32) -> (u64, u64) {
    bt_fold(f, path, line, 0, (0, 0))
}

/// Whether any block of `f` attributes `(path, line)`.
pub open spec fn attributed(f: FunctionView, path: SymbolId, line: u32) -> bool {
    exists|b: int, k: int|
        0 <= b < f.blocks.len() && 0 <= k < f.blocks[b].len() && f.blocks[b][k] == (path, line)
}

/// Statistics of one source line of one function.
#[derive(Clone, Copy, Debug, PartialEq, Eq, Structural)]
pub struct LineStat {
    /// The line number.
    pub line: u32,
    /// Aggregated execution count (saturating).
    pub count: u64,
    /// Whether the count is positive.
    pub executed: bool,
    /// Branches taken, over attributed blocks with more than one out-arc.
    pub branch_taken: u64,
    /// Branches in all, over attributed blocks with more than one out-arc.
    pub branch_total: u64,
}

/// The exact statistics of one line of one function.
pub open spec fn stat_matches(f: FunctionView, path: SymbolId, st: LineStat) -> bool {
    &&& st.count == line_count_spec(f, path, st.line)
    &&& st.executed == (st.count > 0)
    &&& (st.branch_taken, st.branch_total) == branch_spec(f, path, st.line)
    &&& attributed(f, path, st.line)
}

/// Computes a block's count, saturating.
fn block_count(f: &FunctionCov, b: usize) -> (r: u64)
    ensures
        r == sat64(block_count_spec(f@, b as int)),
{
    let na = f.arcs.len();
    let mut acc: u128 = 0;
    let mut k: usize = 0;
    while k < na
        invariant
            0 <= k <= na,
            na == f@.arcs.len(),
            na <= usize::MAX,
            acc as int == if b == 0 {
                out_sum(f@.arcs, 0, k as int)
            } else {
                in_sum(f@.arcs, b as int, k as int)
            },
            acc as int <= k as int * (u64::MAX as int),
        decreases na - k,
    {
        let a = f.arcs[k];
        let v: u64 = match a.count {
            Some(c) => c,
            None => 0,
        };
        if !a.fake {
            if b == 0 {
                if a.src == 0 {
                    acc = acc + v as u128;
                }
            } else {
                if a.dst == b {
                    acc = acc + v as u128;
                }
            }
        }
        k += 1;
    }
    if acc > u64::MAX as u128 {
        u64::MAX
    } else {
        acc as u64
    }
}

/// Counts the non-fake arcs out of `b`, and those of them taken.
fn block_branches(f: &FunctionCov, b: usize) -> (r: (u64, u64))
    ensures
        r.0 == sat64(out_deg(f@.arcs, b as int, f@.arcs.len() as int)),
        r.1 == sat64(out_taken(f@.arcs, b as int, f@.arcs.len() as int)),
{
    let na = f.arcs.len();
    let mut deg: usize = 0;
    let mut tak: usize = 0;
    let mut k: usize = 0;
    while k < na
        invariant
            0 <= k <= na,
            na == f@.arcs.len(),
            deg as int == out_deg(f@.arcs, b as int, k as int),
            tak as int == out_taken(f@.arcs, b as int, k as int),
            tak <= deg <= k,
        decreases na - k,
    {
        let a = f.arcs[k];
        if a.src == b && !a.fake {
            deg += 1;
            let pos = match a.count {
                Some(c) => c > 0,
                None => false,
            };
            if pos {
                tak += 1;
            }
        }
        k += 1;
    }
    (deg as u64, tak as u64)
}

/// Computes the aggregated count of one `(path, line)` pair of a function.
fn count_line(f: &FunctionCov, path: SymbolId, line: u32) -> (r: u64)
    ensures
        r == line_count_spec(f@, path, line),
{
    let nb = f.blocks.len();
    let mut acc: u64 = 0;
    let mut b: usize = 0;
    while b < nb
        invariant
            0 <= b <= nb,
            nb == f@.blocks.len(),
            line_count_spec(f@, path, line) == lt_fold(f@, path, line, b as int, acc),
        decreases nb - b,
    {
        let bc = block_count(f, b);
        let attrs = &f.blocks[b].lines;
        let m = attrs.len();
        let ghost acc0 = acc;
        let mut k: usize = 0;
        while k < m
            invariant
                0 <= k <= m,
                m == attrs@.len(),
                attrs@ == f@.blocks[b as int],
                b < nb == f@.blocks.len(),
                bc == sat64(block_count_spec(f@, b as int)),
                bl_fold(f@.blocks[b as int], path, line, 0, bc, acc0) == bl_fold(
                    f@.blocks[b as int],
                    path,
                    line,
                    k as int,
                    bc,
                    acc,
                ),
            decreases m - k,
        {
            let (p, l) = attrs[k];
            if p == path && l == line {
                acc = acc.saturating_add(bc);
            }
            k += 1;
        }
        b += 1;
    }
    acc
}

/// Computes `(branches taken, branches total)` of one line of a function.
fn count_branches(f: &FunctionCov, path: SymbolId, line: u32) -> (r: (u64, u64))
    ensures
        r == branch_spec(f@, path, line),
{
    let nb = f.blocks.len();
    let mut taken: u64 = 0;
    let mut total: u64 = 0;
    let mut b: usize = 0;
    while b < nb
        invariant
            0 <= b <= nb,
            nb == f@.blocks.len(),
            branch_spec(f@, path, line) == bt_fold(f@, path, line, b as int, (taken, total)),
        decreases nb - b,
    {
        let (deg, tak) = block_branches(f, b);
        let attrs = &f.blocks[b].lines;
        let m = attrs.len();
        let ghost acc0 = (taken, total);
        let mut k: usize = 0;
        while k < m
            invariant
                0 <= k <= m,
                m == attrs@.len(),
                attrs@ == f@.blocks[b as int],
                b < nb == f@.blocks.len(),
                deg == sat64(out_deg(f@.arcs, b as int, f@.arcs.len() as int)),
                tak == sat64(out_taken(f@.arcs, b as int, f@.arcs.len() as int)),
                br_fold(f@.blocks[b as int], path, line, 0, deg, tak, acc0) == br_fold(
                    f@.blocks[b as int],
                    path,
                    line,
                    k as int,
                    deg,
                    tak,
                    (taken, total),
                ),
            decreases m - k,
        {
            let (p, l) = attrs[k];
            if p == path && l == line && deg > 1 {
                taken = taken.saturating_add(tak);
                total = total.saturating_add(deg);
            }
            k += 1;
        }
        b += 1;
    }
    (taken, total)
}

/// Whether the pair list already holds this `(path, line)`.
fn has_pair(v: &Vec<(SymbolId, u32)>, path: SymbolId, line: u32) -> (r: bool)
    ensures
        r == v@.contains((path, line)),
{
    let n = v.len();
    let mut i: usize = 0;
    while i < n
        invariant
            0 <= i <= n,
            n == v@.len(),
            forall|k: int| 0 <= k < i ==> v@[k] != (path, line),
        decreases n - i,
    {
        let (p, l) = v[i];
        if p == path && l == line {
            assert(v@[i as int] == (path, line));
            return true;
        }
        i += 1;
    }
    proof {
        if v@.contains((path, line)) {
            let w = choose|w: int| 0 <= w < v@.len() && v@[w] == (path, line);
            assert(v@[w] != (path, line));
        }
    }
    false
}

/// The distinct `(path, line)` pairs attributed anywhere in a function, and
/// the exact statistics of each.
pub fn fn_line_stats(f: &FunctionCov) -> (r: Vec<(SymbolId, LineStat)>)
    ensures
        forall|e: int|
            0 <= e < r@.len() ==> stat_matches(f@, (#[trigger] r@[e]).0, r@[e].1),
        forall|p: SymbolId, l: u32|
            attributed(f@, p, l) ==> exists|e: int|
                0 <= e < r@.len() && (#[trigger] r@[e]).0 == p && r@[e].1.line == l,
{
    let nb = f.blocks.len();
    let mut seen: Vec<(SymbolId, u32)> = Vec::new();
    let mut out: Vec<(SymbolId, LineStat)> = Vec::new();
    let mut b: usize = 0;
    while b < nb
        invariant
            0 <= b <= nb,
            nb == f@.blocks.len(),
            seen@.len() == out@.len(),
            forall|e: int|
                0 <= e < out@.len() ==> (#[trigger] out@[e]).0 == seen@[e].0 && out@[e].1.line
                    == seen@[e].1,
            forall|e: int|
                0 <= e < out@.len() ==> stat_matches(f@, (#[trigger] out@[e]).0, out@[e].1),
            forall|bb: int, kk: int|
                0 <= bb < b && 0 <= kk < f@.blocks[bb].len() ==> seen@.contains(
                    #[trigger] f@.blocks[bb][kk],
                ),
        decreases nb - b,
    {
        let m = f.blocks[b].lines.len();
        let mut k: usize = 0;
        while k < m
            invariant
                0 <= k <= m,
                0 <= b < nb == f@.blocks.len(),
                m == f@.blocks[b as int].len(),
                seen@.len() == out@.len(),
                forall|e: int|
                    0 <= e < out@.len() ==> (#[trigger] out@[e]).0 == seen@[e].0 && out@[e].1.line
                        == seen@[e].1,
                forall|e: int|
                    0 <= e < out@.len() ==> stat_matches(f@, (#[trigger] out@[e]).0, out@[e].1),
                forall|bb: int, kk: int|
                    0 <= bb < b && 0 <= kk < f@.blocks[bb].len() ==> seen@.contains(
                        #[trigger] f@.blocks[bb][kk],
                    ),
                forall|kk: int|
                    0 <= kk < k ==> seen@.contains(#[trigger] f@.blocks[b as int][kk]),
            decreases m - k,
        {
            let (p, l) = f.blocks[b].lines[k];
            proof {
                assert(f@.blocks[b as int][k as int] == (p, l));
            }
            if !has_pair(&seen, p, l) {
                let count = count_line(f, p, l);
                let (btak, btot) = count_branches(f, p, l);
                let st = LineStat {
                    line: l,
                    count,
                    executed: count > 0,
                    branch_taken: btak,
                    branch_total: btot,
                };
                proof {
                    assert(attributed(f@, p, l));
                }
                let ghost seen0 = seen@;
                seen.push((p, l));
                out.push((p, st));
                proof {
                    assert(seen@ =~= seen0.push((p, l)));
                    assert(seen@.contains((p, l))) by {
                        assert(seen@[seen@.len() - 1] == (p, l));
                    }
                    assert forall|x: (SymbolId, u32)| seen0.contains(x) implies seen@.contains(
                        x,
                    ) by {
                        let w = choose|w: int| 0 <= w < seen0.len() && seen0[w] == x;
                        assert(seen@[w] == x);
                    }
                }
            } else {
                proof {
                    assert(seen@.contains((p, l)));
                }
            }
            k += 1;
        }
        b += 1;
    }
    proof {
        assert forall|p: SymbolId, l: u32| attributed(f@, p, l) implies exists|e: int|
            0 <= e < out@.len() && (#[trigger] out@[e]).0 == p && out@[e].1.line == l by {
            let (bb, kk) = choose|bb: int, kk: int|
                0 <= bb < f@.blocks.len() && 0 <= kk < f@.blocks[bb].len() && f@.blocks[bb][kk]
                    == (p, l);
            assert(seen@.contains(f@.blocks[bb][kk]));
            let w = choose|w: int| 0 <= w < seen@.len() && seen@[w] == (p, l);
            assert(out@[w].0 == p && out@[w].1.line == l);
        }
    }
    out
}

/// Per-function statistics under one file.
pub struct FnStat {
    /// Interned function name.
    pub name: SymbolId,
    /// Statistics of the lines of this file attributed to the function.
    pub lines: Vec<LineStat>,
}

/// Per-file statistics.
pub struct FileStat {
    /// Interned source path.
    pub path: SymbolId,
    /// The functions with lines in this file.
    pub functions: Vec<FnStat>,
}

/// The aggregated statistics of a whole session, with interned handles.
pub struct Report {
    /// One entry per source file that appears in the output.
    pub files: Vec<FileStat>,
}

/// Some selected function carries exactly this statistic under this path
/// and name.
pub open spec fn entry_ok(
    fs: Seq<FunctionView>,
    selected: Seq<bool>,
    path: SymbolId,
    name: SymbolId,
    st: LineStat,
) -> bool {
    exists|i: int| 0 <= i < fs.len() && selected[i] && fs[i].name == name && stat_matches(fs[i], path, st)
}

/// Every line entry of the report is the exact statistic of some selected
/// function, under that function's name and the line's path.
pub open spec fn report_entries_ok(
    fs: Seq<FunctionView>,
    selected: Seq<bool>,
    files: Seq<FileStat>,
) -> bool {
    forall|a: int, g: int, c: int|
        0 <= a < files.len() && 0 <= g < files[a].functions@.len() && 0 <= c < files[a].functions@[g].lines@.len() ==> entry_ok(
            fs,
            selected,
            files[a].path,
            files[a].functions@[g].name,
            #[trigger] files[a].functions@[g].lines@[c],
        )
}

/// Some entry of the report carries, under path `p` and function name
/// `name`, a line statistic for line `l` that is exact for `fsi`.
pub open spec fn line_reported(
    files: Seq<FileStat>,
    p: SymbolId,
    name: SymbolId,
    fsi: FunctionView,
    l: u32,
) -> bool {
    exists|a: int, g: int, c: int|
        0 <= a < files.len() && files[a].path == p && 0 <= g < files[a].functions@.len()
            && files[a].functions@[g].name == name && 0 <= c < files[a].functions@[g].lines@.len()
            && files[a].functions@[g].lines@[c].line == l && stat_matches(
            fsi,
            p,
            files[a].functions@[g].lines@[c],
        )
}

/// Completeness: every line of every selected function whose path is
/// allowed appears in the report, under that function's name, with its
/// exact statistic.
pub open spec fn report_complete(
    fs: Seq<FunctionView>,
    selected: Seq<bool>,
    path_allowed: Seq<bool>,
    files: Seq<FileStat>,
) -> bool {
    forall|i: int, p: SymbolId, l: u32|
        0 <= i < fs.len() && selected[i] && #[trigger] attributed(fs[i], p, l) && 0 <= p
            < path_allowed.len() && path_allowed[p as int] ==> line_reported(
            files,
            p,
            fs[i].name,
            fs[i],
            l,
        )
}

/// Every file of the report carries an allowed path.
pub open spec fn files_allowed(ifiles: Seq<FileStat>, pa: Seq<bool>) -> bool {
    forall|a: int| 0 <= a < ifiles.len() ==> pa[(#[trigger] ifiles[a]).path as int]
}

/// Aggregates the statistics of the selected functions, keeping only line
/// attributions whose path is allowed.
///
/// Files appear in first-encounter order; under each file, the selected
/// functions that attribute lines to it; under each function, one exact
/// `LineStat` per attributed line of that file.
pub fn aggregate(functions: &Vec<FunctionCov>, selected: &Vec<bool>, path_allowed: &Vec<bool>) -> (
    r: Report)
    requires
        selected@.len() == functions@.len(),
        forall|i: int|
            0 <= i < functions@.len() ==> fn_syms_ok(
                #[trigger] functions_view(functions@)[i],
                path_allowed@.len() as int,
            ),
    ensures
        report_entries_ok(functions_view(functions@), selected@, r.files@),
        report_complete(functions_view(functions@), selected@, path_allowed@, r.files@),
        files_allowed(r.files@, path_allowed@),
{
    let n = functions.len();
    let mut files: Vec<FileStat> = Vec::new();
    let mut i: usize = 0;
    while i < n
        invariant
            0 <= i <= n,
            n == functions@.len(),
            selected@.len() == n,
            forall|j: int|
                0 <= j < n ==> fn_syms_ok(
                    #[trigger] functions_view(functions@)[j],
                    path_allowed@.len() as int,
                ),
            report_entries_ok(functions_view(functions@), selected@, files@),
            forall|i2: int, p: SymbolId, l: u32|
                0 <= i2 < i && selected@[i2] && #[trigger] attributed(
                    functions_view(functions@)[i2],
                    p,
                    l,
                ) && 0 <= p < path_allowed@.len() && path_allowed@[p as int] ==> line_reported(
                    files@,
                    p,
                    functions_view(functions@)[i2].name,
                    functions_view(functions@)[i2],
                    l,
                ),
            forall|a: int|
                0 <= a < files@.len() ==> path_allowed@[(#[trigger] files@[a]).path as int],
        decreases n - i,
    {
        if selected[i] {
            let f = &functions[i];
            proof {
                assert(functions_view(functions@)[i as int] == f@);
            }
            let stats = fn_line_stats(f);
            let ns = stats.len();
            let mut s: usize = 0;
            while s < ns
                invariant
                    0 <= s <= ns,
                    i < n == functions@.len(),
                    selected@.len() == n,
                    selected@[i as int],
                    ns == stats@.len(),
                    f == &functions[i as int],
                    functions_view(functions@)[i as int] == f@,
                    forall|e: int|
                        0 <= e < ns ==> stat_matches(f@, (#[trigger] stats@[e]).0, stats@[e].1),
                    forall|j: int|
                        0 <= j < n ==> fn_syms_ok(
                            #[trigger] functions_view(functions@)[j],
                            path_allowed@.len() as int,
                        ),
                    report_entries_ok(functions_view(functions@), selected@, files@),
                    forall|i2: int, p: SymbolId, l: u32|
                        0 <= i2 < i && selected@[i2] && #[trigger] attributed(
                            functions_view(functions@)[i2],
                            p,
                            l,
                        ) && 0 <= p < path_allowed@.len() && path_allowed@[p as int]
                            ==> line_reported(
                            files@,
                            p,
                            functions_view(functions@)[i2].name,
                            functions_view(functions@)[i2],
                            l,
                        ),
                    forall|e: int|
                        0 <= e < s && 0 <= (#[trigger] stats@[e]).0 < path_allowed@.len()
                            && path_allowed@[stats@[e].0 as int] ==> line_reported(
                            files@,
                            stats@[e].0,
                            f@.name,
                            f@,
                            stats@[e].1.line,
                        ),
                    forall|a: int|
                        0 <= a < files@.len() ==> path_allowed@[(#[trigger] files@[a]).path as int],
                decreases ns - s,
            {
                let (p, st) = stats[s];
                proof {
                    assert(stat_matches(f@, p, st));
                    assert(attributed(f@, p, st.line));
                    let (bb, kk) = choose|bb: int, kk: int|
                        0 <= bb < f@.blocks.len() && 0 <= kk < f@.blocks[bb].len() && f@.blocks[bb][kk] == (p, st.line);
                    assert(f@.blocks[bb][kk].0 < path_allowed@.len());
                }
                if path_allowed[p] {
                    add_stat(&mut files, p, f.name, st, Ghost(functions_view(functions@)),
                        Ghost(selected@), Ghost(i as int));
                }
                s += 1;
            }
            proof {
                assert forall|p: SymbolId, l: u32|
                    attributed(f@, p, l) && 0 <= p < path_allowed@.len() && path_allowed@[p as int] implies line_reported(files@, p, f@.name, f@, l) by {
                    let e = choose|e: int|
                        0 <= e < stats@.len() && (#[trigger] stats@[e]).0 == p && stats@[e].1.line == l;
                    assert(0 <= e < stats@.len() && stats@[e].0 == p && stats@[e].1.line == l);
                    assert(line_reported(files@, stats@[e].0, f@.name, f@, stats@[e].1.line));
                }
            }
        }
        i += 1;
    }
    Report { files }
}

/// Inserts one line statistic under its file and function, creating the
/// entries on first encounter.
#[verifier::rlimit(100)]
fn add_stat(
    files: &mut Vec<FileStat>,
    path: SymbolId,
    name: SymbolId,
    st: LineStat,
    Ghost(fs): Ghost<Seq<FunctionView>>,
    Ghost(selected): Ghost<Seq<bool>>,
    Ghost(fi): Ghost<int>,
)
    requires
        report_entries_ok(fs, selected, old(files)@),
        0 <= fi < fs.len(),
        selected[fi],
        fs[fi].name == name,
        stat_matches(fs[fi], path, st),
    ensures
        report_entries_ok(fs, selected, final(files)@),
        line_reported(final(files)@, path, name, fs[fi], st.line),
        forall|p2: SymbolId, n2: SymbolId, fv: FunctionView, l2: u32|
            #[trigger] line_reported(old(files)@, p2, n2, fv, l2) ==> line_reported(
                final(files)@,
                p2,
                n2,
                fv,
                l2,
            ),
        forall|a: int|
            0 <= a < final(files)@.len() ==> (#[trigger] final(files)@[a]).path == path || (a
                < old(files)@.len() && final(files)@[a].path == old(files)@[a].path),
{
    let nf = files.len();
    let mut a: usize = 0;
    while a < nf
        invariant
            0 <= a <= nf,
            nf == files@.len(),
            files@ == old(files)@,
            report_entries_ok(fs, selected, files@),
            0 <= fi < fs.len(),
            selected[fi],
            fs[fi].name == name,
            stat_matches(fs[fi], path, st),
        decreases nf - a,
    {
        if files[a].path == path {
            let ghost old_f = files@;
            let mut tmpf = FileStat { path, functions: Vec::new() };
            files.set_and_swap(a, &mut tmpf);
            let ng = tmpf.functions.len();
            let mut g: usize = 0;
            while g < ng
                invariant
                    0 <= g <= ng,
                    ng == tmpf.functions@.len(),
                    tmpf == old_f[a as int],
                    a < files@.len(),
                    files@.len() == old_f.len(),
                    forall|x: int| 0 <= x < old_f.len() && x != a ==> files@[x] == old_f[x],
                    old_f == old(files)@,
                    report_entries_ok(fs, selected, old_f),
                    0 <= fi < fs.len(),
                    selected[fi],
                    fs[fi].name == name,
                    stat_matches(fs[fi], path, st),
                    old_f[a as int].path == path,
                decreases ng - g,
            {
                if tmpf.functions[g].name == name {
                    let ghost old_lines = tmpf.functions@[g as int].lines@;
                    let mut tmpg = FnStat { name, lines: Vec::new() };
                    tmpf.functions.set_and_swap(g, &mut tmpg);
                    tmpg.lines.push(st);
                    tmpf.functions.set_and_swap(g, &mut tmpg);
                    files.set_and_swap(a, &mut tmpf);
                    proof {
                        assert(files@.len() == old_f.len());
                        assert(files@[a as int].path == path);
                        assert(files@[a as int].functions@.len() == old_f[a as int].functions@.len());
                        assert(files@[a as int].functions@[g as int].name == name);
                        assert(files@[a as int].functions@[g as int].lines@ =~= old_lines.push(st));
                        assert(entry_ok(fs, selected, path, name, st)) by {
                            assert(0 <= fi < fs.len() && selected[fi] && fs[fi].name == name && stat_matches(fs[fi], path, st));
                        }
                        assert forall|x: int, g2: int, c2: int|
                            0 <= x < files@.len() && 0 <= g2 < files@[x].functions@.len() && 0 <= c2 < files@[x].functions@[g2].lines@.len() implies entry_ok(
                            fs,
                            selected,
                            files@[x].path,
                            files@[x].functions@[g2].name,
                            #[trigger] files@[x].functions@[g2].lines@[c2],
                        ) by {
                            if x == a as int && g2 == g as int && c2 == old_lines.len() {
                                assert(files@[x].functions@[g2].lines@[c2] == st);
                            } else {
                                assert(files@[x].functions@[g2].lines@[c2] == old_f[x].functions@[g2].lines@[c2]);
                                assert(files@[x].functions@[g2].name == old_f[x].functions@[g2].name);
                                assert(files@[x].path == old_f[x].path);
                                assert(entry_ok(fs, selected, old_f[x].path, old_f[x].functions@[g2].name, old_f[x].functions@[g2].lines@[c2]));
                            }
                        }
                        assert(report_entries_ok(fs, selected, files@));
                        assert(line_reported(files@, path, name, fs[fi], st.line)) by {
                            assert(files@[a as int].path == path && files@[a as int].functions@[g as int].name == name
                                && files@[a as int].functions@[g as int].lines@[old_lines.len() as int] == st
                                && stat_matches(fs[fi], path, st));
                        }
                        assert forall|p2: SymbolId, n2: SymbolId, fv: FunctionView, l2: u32|
                            #[trigger] line_reported(old_f, p2, n2, fv, l2) implies line_reported(
                            files@,
                            p2,
                            n2,
                            fv,
                            l2,
                        ) by {
                            let (a2, g2, c2) = choose|a2: int, g2: int, c2: int|
                                0 <= a2 < old_f.len() && old_f[a2].path == p2 && 0 <= g2
                                    < old_f[a2].functions@.len() && old_f[a2].functions@[g2].name == n2
                                    && 0 <= c2 < old_f[a2].functions@[g2].lines@.len()
                                    && old_f[a2].functions@[g2].lines@[c2].line == l2
                                    && stat_matches(fv, p2, old_f[a2].functions@[g2].lines@[c2]);
                            assert(files@[a2].functions@[g2].lines@[c2] == old_f[a2].functions@[g2].lines@[c2]);
                            assert(files@[a2].path == old_f[a2].path && files@[a2].functions@[g2].name
                                == old_f[a2].functions@[g2].name);
                        }
                    }
                    return;
                }
                g += 1;
            }
            let ghost old_fns = tmpf.functions@;
            let mut lv: Vec<LineStat> = Vec::new();
            lv.push(st);
            let newfn = FnStat { name, lines: lv };
            let ghost newfn_v = newfn;
            tmpf.functions.push(newfn);
            files.set_and_swap(a, &mut tmpf);
            proof {
                assert(files@.len() == old_f.len());
                assert(files@[a as int].path == path);
                assert(files@[a as int].functions@ =~= old_fns.push(newfn_v));
                assert(files@[a as int].functions@[old_fns.len() as int].lines@.len() == 1);
                assert(files@[a as int].functions@[old_fns.len() as int].lines@[0] == st);
                assert(files@[a as int].functions@[old_fns.len() as int].name == name);
                assert(entry_ok(fs, selected, path, name, st)) by {
                    assert(0 <= fi < fs.len() && selected[fi] && fs[fi].name == name && stat_matches(fs[fi], path, st));
                }
                assert forall|x: int, g2: int, c2: int|
                    0 <= x < files@.len() && 0 <= g2 < files@[x].functions@.len() && 0 <= c2 < files@[x].functions@[g2].lines@.len() implies entry_ok(
                    fs,
                    selected,
                    files@[x].path,
                    files@[x].functions@[g2].name,
                    #[trigger] files@[x].functions@[g2].lines@[c2],
                ) by {
                    if x == a as int && g2 == old_fns.len() {
                        assert(files@[x].functions@[g2].lines@[c2] == st);
                    } else {
                        assert(files@[x].functions@[g2].lines@[c2] == old_f[x].functions@[g2].lines@[c2]);
                        assert(files@[x].functions@[g2].name == old_f[x].functions@[g2].name);
                        assert(files@[x].path == old_f[x].path);
                        assert(entry_ok(fs, selected, old_f[x].path, old_f[x].functions@[g2].name, old_f[x].functions@[g2].lines@[c2]));
                    }
                }
                assert(report_entries_ok(fs, selected, files@));
                assert(line_reported(files@, path, name, fs[fi], st.line)) by {
                    assert(files@[a as int].path == path && files@[a as int].functions@[old_fns.len() as int].name == name
                        && files@[a as int].functions@[old_fns.len() as int].lines@[0] == st
                        && stat_matches(fs[fi], path, st));
                }
                assert forall|p2: SymbolId, n2: SymbolId, fv: FunctionView, l2: u32|
                    #[trigger] line_reported(old_f, p2, n2, fv, l2) implies line_reported(
                    files@,
                    p2,
                    n2,
                    fv,
                    l2,
                ) by {
                    let (a2, g2, c2) = choose|a2: int, g2: int, c2: int|
                        0 <= a2 < old_f.len() && old_f[a2].path == p2 && 0 <= g2
                            < old_f[a2].functions@.len() && old_f[a2].functions@[g2].name == n2
                            && 0 <= c2 < old_f[a2].functions@[g2].lines@.len()
                            && old_f[a2].functions@[g2].lines@[c2].line == l2
                            && stat_matches(fv, p2, old_f[a2].functions@[g2].lines@[c2]);
                    assert(files@[a2].functions@[g2].lines@[c2] == old_f[a2].functions@[g2].lines@[c2]);
                    assert(files@[a2].path == old_f[a2].path && files@[a2].functions@[g2].name
                        == old_f[a2].functions@[g2].name);
                }
            }
            return;
        }
        a += 1;
    }
    let ghost old_f = files@;
    let mut lv: Vec<LineStat> = Vec::new();
    lv.push(st);
    let mut fv: Vec<FnStat> = Vec::new();
    fv.push(FnStat { name, lines: lv });
    let newfile = FileStat { path, functions: fv };
    let ghost newfile_v = newfile;
    files.push(newfile);
    proof {
        assert(files@ =~= old_f.push(newfile_v));
        assert(files@[old_f.len() as int].functions@.len() == 1);
        assert(files@[old_f.len() as int].functions@[0].lines@.len() == 1);
        assert(files@[old_f.len() as int].functions@[0].lines@[0] == st);
        assert(files@[old_f.len() as int].functions@[0].name == name);
        assert(files@[old_f.len() as int].path == path);
        assert(entry_ok(fs, selected, path, name, st)) by {
            assert(0 <= fi < fs.len() && selected[fi] && fs[fi].name == name && stat_matches(fs[fi], path, st));
        }
        assert forall|x: int, g2: int, c2: int|
            0 <= x < files@.len() && 0 <= g2 < files@[x].functions@.len() && 0 <= c2 < files@[x].functions@[g2].lines@.len() implies entry_ok(
            fs,
            selected,
            files@[x].path,
            files@[x].functions@[g2].name,
            #[trigger] files@[x].functions@[g2].lines@[c2],
        ) by {
            if x == old_f.len() as int {
                assert(files@[x].functions@[g2].lines@[c2] == st);
            } else {
                assert(files@[x].functions@[g2].lines@[c2] == old_f[x].functions@[g2].lines@[c2]);
                assert(files@[x].functions@[g2].name == old_f[x].functions@[g2].name);
                assert(files@[x].path == old_f[x].path);
                assert(entry_ok(fs, selected, old_f[x].path, old_f[x].functions@[g2].name, old_f[x].functions@[g2].lines@[c2]));
            }
        }
        assert(report_entries_ok(fs, selected, files@));
        assert(line_reported(files@, path, name, fs[fi], st.line)) by {
            assert(files@[old_f.len() as int].path == path && files@[old_f.len() as int].functions@[0].name == name
                && files@[old_f.len() as int].functions@[0].lines@[0] == st
                && stat_matches(fs[fi], path, st));
        }
        assert forall|p2: SymbolId, n2: SymbolId, fv: FunctionView, l2: u32|
            #[trigger] line_reported(old_f, p2, n2, fv, l2) implies line_reported(
            files@,
            p2,
            n2,
            fv,
            l2,
        ) by {
            let (a2, g2, c2) = choose|a2: int, g2: int, c2: int|
                0 <= a2 < old_f.len() && old_f[a2].path == p2 && 0 <= g2
                    < old_f[a2].functions@.len() && old_f[a2].functions@[g2].name == n2
                    && 0 <= c2 < old_f[a2].functions@[g2].lines@.len()
                    && old_f[a2].functions@[g2].lines@[c2].line == l2
                    && stat_matches(fv, p2, old_f[a2].functions@[g2].lines@[c2]);
            assert(files@[a2].functions@[g2].lines@[c2] == old_f[a2].functions@[g2].lines@[c2]);
            assert(files@[a2].path == old_f[a2].path && files@[a2].functions@[g2].name
                == old_f[a2].functions@[g2].name);
        }
    }
}

/// Exported statistics of one function, with its name resolved.
pub struct ExportFn {
    /// The function's name as text.
    pub name: String,
    /// Statistics of the lines of this file attributed to the function.
    pub lines: Vec<LineStat>,
}

/// Exported statistics of one file, with its path resolved.
pub struct ExportFile {
    /// The source path as text.
    pub path: String,
    /// The functions with lines in this file.
    pub functions: Vec<ExportFn>,
}

/// The exported report: nothing interned remains in it.
pub struct ExportReport {
    /// One entry per source file.
    pub files: Vec<ExportFile>,
}

/// A per-function warning with its function name resolved.
pub struct ExportWarning {
    /// The affected function's name as text.
    pub name: String,
    /// Either `CovError::Checksum` or `CovError::Underconstrained`.
    pub kind: CovError,
}

} // verus!
