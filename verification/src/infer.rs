//! Arc inference engine: fixed-point propagation of the flow-conservation
//! law.
//!
//! After merging, arcs that carry no literal counter still have `None`
//! counts. At any internal block where exactly one incident non-fake arc is
//! unknown, conservation (flow in equals flow out) forces its value; the
//! engine repeats such resolutions until none fires. If an arc is still
//! unknown at the fixed point, or the resolved counts violate conservation
//! at some internal block, the notes/data pairing is inconsistent and the
//! function fails with `Underconstrained`, left untouched; counts are never
//! guessed.
//!
//! Fake arcs are excluded from the conservation sums. The entry block and
//! the exit block are anchored by the measured arcs themselves and are not
//! balanced (the call/return flow enters and leaves there).

use crate::error::CovError;
use crate::graph::{ArcCov, FunctionCov, FunctionView};
use crate::merge::same_shape;
use vstd::prelude::*;

verus! {

/// The count an arc contributes to a conservation sum.
pub open spec fn arc_val(a: ArcCov) -> int {
    match a.count {
        Some(c) => c as int,
        None => 0,
    }
}

/// Sum of the counts of non-fake arcs into block `b`, over the first `upto`
/// arcs.
pub open spec fn in_sum(arcs: Seq<ArcCov>, b: int, upto: int) -> int
    decreases upto,
{
    if upto <= 0 {
        0
    } else {
        in_sum(arcs, b, upto - 1) + if arcs[upto - 1].dst == b && !arcs[upto - 1].fake {
            arc_val(arcs[upto - 1])
        } else {
            0
        }
    }
}

/// Sum of the counts of non-fake arcs out of block `b`, over the first
/// `upto` arcs.
pub open spec fn out_sum(arcs: Seq<ArcCov>, b: int, upto: int) -> int
    decreases upto,
{
    if upto <= 0 {
        0
    } else {
        out_sum(arcs, b, upto - 1) + if arcs[upto - 1].src == b && !arcs[upto - 1].fake {
            arc_val(arcs[upto - 1])
        } else {
            0
        }
    }
}

/// Every arc carries a definite count.
pub open spec fn counts_all_some(arcs: Seq<ArcCov>) -> bool {
    forall|k: int| 0 <= k < arcs.len() ==> (#[trigger] arcs[k]).count is Some
}

/// Flow conservation: at every internal block (neither the entry block 0
/// nor the exit block), flow in equals flow out over non-fake arcs.
pub open spec fn conserved(f: FunctionView) -> bool {
    forall|b: int|
        0 < b < f.blocks.len() - 1 ==> in_sum(f.arcs, b, f.arcs.len() as int) == #[trigger] out_sum(
            f.arcs,
            b,
            f.arcs.len() as int,
        )
}

/// Counts already present are kept exactly.
pub open spec fn counts_preserved(a: Seq<ArcCov>, b: Seq<ArcCov>) -> bool {
    forall|k: int|
        0 <= k < a.len() && (#[trigger] a[k]).count is Some ==> b[k].count == a[k].count
}

/// The arc list with its counts replaced from a parallel list.
pub open spec fn merged_arcs(arcs: Seq<ArcCov>, counts: Seq<Option<u64>>) -> Seq<ArcCov> {
    Seq::new(arcs.len(), |k: int| ArcCov { count: counts[k], ..arcs[k] })
}

/// Number of unknown counts among the first `upto` entries.
pub open spec fn none_count(s: Seq<Option<u64>>, upto: int) -> int
    decreases upto,
{
    if upto <= 0 {
        0
    } else {
        none_count(s, upto - 1) + if s[upto - 1] is None {
            1int
        } else {
            0int
        }
    }
}

/// Resolving one unknown entry lowers the unknown count by one.
pub proof fn lemma_none_count_update(s: Seq<Option<u64>>, k: int, v: u64, upto: int)
    requires
        0 <= k < s.len(),
        s[k] is None,
        upto <= s.len(),
    ensures
        none_count(s.update(k, Some(v)), upto) == none_count(s, upto) - if k < upto {
            1int
        } else {
            0int
        },
    decreases upto,
{
    if upto > 0 {
        lemma_none_count_update(s, k, v, upto - 1);
    }
}

/// The unknown count never exceeds the prefix length, and never drops below
/// zero.
pub proof fn lemma_none_count_bound(s: Seq<Option<u64>>, upto: int)
    requires
        0 <= upto,
    ensures
        0 <= none_count(s, upto) <= upto,
    decreases upto,
{
    if upto > 0 {
        lemma_none_count_bound(s, upto - 1);
    }
}


/// The counts column of an arc list.
pub open spec fn counts_of(arcs: Seq<ArcCov>) -> Seq<Option<u64>> {
    arcs.map_values(|a: ArcCov| a.count)
}

/// Every entry of a counts column is definite.
pub open spec fn all_counts_some(c: Seq<Option<u64>>) -> bool {
    forall|k: int| 0 <= k < c.len() ==> (#[trigger] c[k]) is Some
}

/// Running classification of one block's incident non-fake arcs: how many
/// are unknown, the last unknown's index, and the known in- and out-flow.
pub struct ScanState {
    pub unknown_cnt: int,
    pub unknown_idx: int,
    pub in_total: int,
    pub out_total: int,
}

/// Folds the per-block scan over the arcs from position `k` on.
pub open spec fn scan_fold(
    arcs: Seq<ArcCov>,
    counts: Seq<Option<u64>>,
    b: int,
    k: int,
    st: ScanState,
) -> ScanState
    decreases arcs.len() - k,
{
    if k < 0 || k >= arcs.len() {
        st
    } else {
        let a = arcs[k];
        let st2 = if !a.fake && (a.dst == b || a.src == b) {
            match counts[k] {
                Some(v) => ScanState {
                    in_total: st.in_total + if a.dst == b {
                        v as int
                    } else {
                        0
                    },
                    out_total: st.out_total + if a.src == b {
                        v as int
                    } else {
                        0
                    },
                    ..st
                },
                None => ScanState { unknown_cnt: st.unknown_cnt + 1, unknown_idx: k, ..st },
            }
        } else {
            st
        };
        scan_fold(arcs, counts, b, k + 1, st2)
    }
}

/// The scan of a whole block.
pub open spec fn scan_block(arcs: Seq<ArcCov>, counts: Seq<Option<u64>>, b: int) -> ScanState {
    scan_fold(
        arcs,
        counts,
        b,
        0,
        ScanState { unknown_cnt: 0, unknown_idx: 0, in_total: 0, out_total: 0 },
    )
}

/// One resolution attempt at block `b`: when exactly one incident non-fake
/// arc (other than a self-loop) is unknown, conservation forces its value;
/// a negative or over-large forced value is an inconsistency.
pub open spec fn resolve_at(arcs: Seq<ArcCov>, counts: Seq<Option<u64>>, b: int) -> Result<
    (Seq<Option<u64>>, bool),
    CovError,
> {
    let st = scan_block(arcs, counts, b);
    if st.unknown_cnt == 1 && !(arcs[st.unknown_idx].dst == b && arcs[st.unknown_idx].src == b) {
        let forced = if arcs[st.unknown_idx].dst == b {
            st.out_total - st.in_total
        } else {
            st.in_total - st.out_total
        };
        if forced < 0 || forced > u64::MAX {
            Err(CovError::Underconstrained)
        } else {
            Ok((counts.update(st.unknown_idx, Some(forced as u64)), true))
        }
    } else {
        Ok((counts, false))
    }
}

/// One pass of the fixed-point scan over the internal blocks from `b` up to
/// `stop`, threading the counts and whether anything was resolved.
pub open spec fn pass_fold(
    arcs: Seq<ArcCov>,
    counts: Seq<Option<u64>>,
    b: int,
    stop: int,
    changed: bool,
) -> Result<(Seq<Option<u64>>, bool), CovError>
    decreases stop - b,
{
    if b >= stop {
        Ok((counts, changed))
    } else {
        match resolve_at(arcs, counts, b) {
            Err(e) => Err(e),
            Ok((c2, ch)) => pass_fold(arcs, c2, b + 1, stop, changed || ch),
        }
    }
}

/// A positive unknown count comes with a valid index of an unknown entry.
pub proof fn lemma_scan_fold_unknown(
    arcs: Seq<ArcCov>,
    counts: Seq<Option<u64>>,
    b: int,
    k: int,
    st: ScanState,
)
    requires
        counts.len() == arcs.len(),
        0 <= k <= arcs.len(),
        st.unknown_cnt > 0 ==> 0 <= st.unknown_idx < arcs.len() && counts[st.unknown_idx] is None,
    ensures
        ({
            let r = scan_fold(arcs, counts, b, k, st);
            r.unknown_cnt >= st.unknown_cnt && (r.unknown_cnt > 0 ==> 0 <= r.unknown_idx
                < arcs.len() && counts[r.unknown_idx] is None)
        }),
    decreases arcs.len() - k,
{
    if k < arcs.len() {
        let a = arcs[k];
        let st2 = if !a.fake && (a.dst == b || a.src == b) {
            match counts[k] {
                Some(v) => ScanState {
                    in_total: st.in_total + if a.dst == b {
                        v as int
                    } else {
                        0
                    },
                    out_total: st.out_total + if a.src == b {
                        v as int
                    } else {
                        0
                    },
                    ..st
                },
                None => ScanState { unknown_cnt: st.unknown_cnt + 1, unknown_idx: k, ..st },
            }
        } else {
            st
        };
        lemma_scan_fold_unknown(arcs, counts, b, k + 1, st2);
    }
}

/// A resolution step keeps the counts' length, changes nothing when it
/// reports no change, and lowers the unknown count by one when it does.
pub proof fn lemma_resolve_at_effect(arcs: Seq<ArcCov>, counts: Seq<Option<u64>>, b: int)
    requires
        counts.len() == arcs.len(),
    ensures
        match resolve_at(arcs, counts, b) {
            Ok((c2, ch)) => c2.len() == counts.len() && (!ch ==> c2 == counts) && (ch
                ==> none_count(c2, c2.len() as int) == none_count(counts, counts.len() as int)
                - 1),
            Err(_) => true,
        },
{
    lemma_scan_fold_unknown(
        arcs,
        counts,
        b,
        0,
        ScanState { unknown_cnt: 0, unknown_idx: 0, in_total: 0, out_total: 0 },
    );
    let st = scan_block(arcs, counts, b);
    match resolve_at(arcs, counts, b) {
        Ok((c2, ch)) => {
            if ch {
                let forced = if arcs[st.unknown_idx].dst == b {
                    st.out_total - st.in_total
                } else {
                    st.in_total - st.out_total
                };
                lemma_none_count_update(counts, st.unknown_idx, forced as u64, counts.len() as int);
            }
        },
        Err(_) => {},
    }
}

/// A pass keeps the counts' length, never raises the unknown count, lowers
/// it strictly when it reports a fresh change, and changes nothing when it
/// reports none.
pub proof fn lemma_pass_fold_effect(
    arcs: Seq<ArcCov>,
    counts: Seq<Option<u64>>,
    b: int,
    stop: int,
    changed: bool,
)
    requires
        counts.len() == arcs.len(),
    ensures
        match pass_fold(arcs, counts, b, stop, changed) {
            Ok((cf, chf)) => {
                &&& cf.len() == counts.len()
                &&& (changed ==> chf)
                &&& none_count(cf, cf.len() as int) <= none_count(counts, counts.len() as int)
                &&& (!changed && chf ==> none_count(cf, cf.len() as int) < none_count(
                    counts,
                    counts.len() as int,
                ))
                &&& (!chf ==> cf == counts)
            },
            Err(_) => true,
        },
    decreases stop - b,
{
    if b < stop {
        lemma_resolve_at_effect(arcs, counts, b);
        match resolve_at(arcs, counts, b) {
            Ok((c2, ch)) => {
                lemma_pass_fold_effect(arcs, c2, b + 1, stop, changed || ch);
            },
            Err(_) => {},
        }
    }
}

/// The fixed point of the resolution passes: repeat until a pass resolves
/// nothing, failing on the first inconsistency.
pub open spec fn fix_counts(arcs: Seq<ArcCov>, counts: Seq<Option<u64>>, stop: int) -> Result<
    Seq<Option<u64>>,
    CovError,
>
    decreases none_count(counts, counts.len() as int),
    when counts.len() == arcs.len()
    via fix_counts_decreases
{
    match pass_fold(arcs, counts, 1, stop, false) {
        Err(e) => Err(e),
        Ok((c2, changed)) => if !changed {
            Ok(c2)
        } else {
            fix_counts(arcs, c2, stop)
        },
    }
}

#[via_fn]
proof fn fix_counts_decreases(arcs: Seq<ArcCov>, counts: Seq<Option<u64>>, stop: int) {
    lemma_pass_fold_effect(arcs, counts, 1, stop, false);
    match pass_fold(arcs, counts, 1, stop, false) {
        Ok((c2, changed)) => {
            if changed {
                lemma_none_count_bound(c2, c2.len() as int);
            }
        },
        Err(_) => {},
    }
}

/// What inference yields for a function: the fixed point of the forced
/// resolutions over its internal blocks, validated complete and conserved;
/// anything short of that is `Underconstrained`.
#[verifier::opaque]
pub open spec fn spec_infer(f: FunctionView) -> Result<Seq<Option<u64>>, CovError> {
    let stop: int = if f.blocks.len() >= 2 {
        f.blocks.len() - 1
    } else {
        0
    };
    match fix_counts(f.arcs, counts_of(f.arcs), stop) {
        Err(e) => Err(e),
        Ok(c) => if all_counts_some(c) && conserved(
            FunctionView { arcs: merged_arcs(f.arcs, c), ..f },
        ) {
            Ok(c)
        } else {
            Err(CovError::Underconstrained)
        },
    }
}

/// Resolves the unknown arc counts of one function by fixed-point
/// conservation propagation, then validates conservation at every internal
/// block and writes the counts back.
///
/// On success every arc's count is definite, counts that were already
/// present are kept exactly, the graph's shape is unchanged, and
/// conservation holds at every internal block. A function whose counts were
/// already complete and conserved always succeeds. On failure the function
/// is returned untouched.
#[verifier::rlimit(100)]
pub fn infer_counts(f: &mut FunctionCov) -> (r: Result<(), CovError>)
    ensures
        match r {
            Ok(()) => {
                &&& same_shape(old(f)@, final(f)@)
                &&& counts_all_some(final(f)@.arcs)
                &&& conserved(final(f)@)
                &&& counts_preserved(old(f)@.arcs, final(f)@.arcs)
                &&& spec_infer(old(f)@) == Ok::<Seq<Option<u64>>, CovError>(
                    counts_of(final(f)@.arcs),
                )
            },
            Err(e) => {
                &&& e == CovError::Underconstrained
                &&& final(f)@ == old(f)@
                &&& spec_infer(old(f)@) == Err::<Seq<Option<u64>>, CovError>(e)
            },
        },
        counts_all_some(old(f)@.arcs) && conserved(old(f)@) ==> r is Ok,
{
    let na = f.arcs.len();
    let nb = f.blocks.len();
    let mut counts: Vec<Option<u64>> = Vec::new();
    let mut k: usize = 0;
    while k < na
        invariant
            0 <= k <= na,
            na == f@.arcs.len(),
            f@ == old(f)@,
            counts@.len() == k,
            forall|i: int| 0 <= i < k ==> counts@[i] == f@.arcs[i].count,
        decreases na - k,
    {
        counts.push(f.arcs[k].count);
        k += 1;
    }
    let ghost ci = counts@;
    proof {
        assert(ci =~= counts_of(f@.arcs));
    }
    let stop: usize = if nb >= 2 {
        nb - 1
    } else {
        0
    };
    let mut progress = true;
    while progress
        invariant
            na == f@.arcs.len(),
            nb == f@.blocks.len(),
            f@ == old(f)@,
            counts@.len() == na,
            na <= usize::MAX,
            stop as int == if nb >= 2 { nb - 1 } else { 0int },
            ci == counts_of(f@.arcs),
            fix_counts(f@.arcs, ci, stop as int) == fix_counts(f@.arcs, counts@, stop as int),
            !progress ==> fix_counts(f@.arcs, counts@, stop as int) == Ok::<
                Seq<Option<u64>>,
                CovError,
            >(counts@),
            forall|i: int|
                0 <= i < na && (#[trigger] f@.arcs[i]).count is Some ==> counts@[i]
                    == f@.arcs[i].count,
            counts_all_some(f@.arcs) ==> counts@ =~= f@.arcs.map_values(|a: ArcCov| a.count),
        decreases none_count(counts@, na as int) + if progress {
            1int
        } else {
            0int
        },
    {
        progress = false;
        let ghost n0 = none_count(counts@, na as int);
        let ghost cp0 = counts@;
        let mut b: usize = 1;
        while b < stop
            invariant
                na == f@.arcs.len(),
                nb == f@.blocks.len(),
                f@ == old(f)@,
                counts@.len() == na,
                na <= usize::MAX,
                1 <= b,
                stop as int == if nb >= 2 { nb - 1 } else { 0int },
                ci == counts_of(f@.arcs),
                cp0.len() == na,
                fix_counts(f@.arcs, ci, stop as int) == fix_counts(f@.arcs, cp0, stop as int),
                pass_fold(f@.arcs, cp0, 1, stop as int, false) == pass_fold(
                    f@.arcs,
                    counts@,
                    b as int,
                    stop as int,
                    progress,
                ),
                !progress ==> counts@ == cp0,
                forall|i: int|
                    0 <= i < na && (#[trigger] f@.arcs[i]).count is Some ==> counts@[i]
                        == f@.arcs[i].count,
                counts_all_some(f@.arcs) ==> counts@ =~= f@.arcs.map_values(|a: ArcCov| a.count),
                (!progress && none_count(counts@, na as int) == n0) || (progress && none_count(
                    counts@,
                    na as int,
                ) < n0),
            decreases stop - b,
        {
            let ghost cb0 = counts@;
            let ghost pg0 = progress;
            let mut unknown_cnt: usize = 0;
            let mut unknown_idx: usize = 0;
            let mut in_acc: u128 = 0;
            let mut out_acc: u128 = 0;
            let mut k2: usize = 0;
            while k2 < na
                invariant
                    0 <= k2 <= na,
                    na == f@.arcs.len(),
                    na <= usize::MAX,
                    counts@.len() == na,
                    unknown_cnt <= k2,
                    in_acc as int <= k2 as int * (u64::MAX as int),
                    out_acc as int <= k2 as int * (u64::MAX as int),
                    unknown_cnt == 1 ==> unknown_idx < na && counts@[unknown_idx as int] is None,
                    scan_block(f@.arcs, counts@, b as int) == scan_fold(
                        f@.arcs,
                        counts@,
                        b as int,
                        k2 as int,
                        ScanState {
                            unknown_cnt: unknown_cnt as int,
                            unknown_idx: unknown_idx as int,
                            in_total: in_acc as int,
                            out_total: out_acc as int,
                        },
                    ),
                decreases na - k2,
            {
                let a = f.arcs[k2];
                if !a.fake && (a.dst == b || a.src == b) {
                    match counts[k2] {
                        Some(v) => {
                            if a.dst == b {
                                in_acc = in_acc + v as u128;
                            }
                            if a.src == b {
                                out_acc = out_acc + v as u128;
                            }
                        },
                        None => {
                            unknown_cnt += 1;
                            unknown_idx = k2;
                        },
                    }
                }
                k2 += 1;
            }
            let ghost st_scan = ScanState {
                unknown_cnt: unknown_cnt as int,
                unknown_idx: unknown_idx as int,
                in_total: in_acc as int,
                out_total: out_acc as int,
            };
            proof {
                assert(scan_block(f@.arcs, counts@, b as int) == st_scan);
            }
            if unknown_cnt == 1 {
                let u = f.arcs[unknown_idx];
                if !(u.dst == b && u.src == b) {
                    proof {
                        if counts_all_some(f@.arcs) {
                            assert(counts@[unknown_idx as int] == f@.arcs[unknown_idx as int].count);
                            assert(false);
                        }
                    }
                    let forced: u128 = if u.dst == b {
                        if out_acc < in_acc {
                            proof {
                                assert(resolve_at(f@.arcs, counts@, b as int) == Err::<
                                    (Seq<Option<u64>>, bool),
                                    CovError,
                                >(CovError::Underconstrained));
                                assert(pass_fold(f@.arcs, cp0, 1, stop as int, false) == Err::<
                                    (Seq<Option<u64>>, bool),
                                    CovError,
                                >(CovError::Underconstrained));
                                assert(fix_counts(f@.arcs, ci, stop as int) == Err::<
                                    Seq<Option<u64>>,
                                    CovError,
                                >(CovError::Underconstrained));
                                reveal(spec_infer);
                                assert(spec_infer(f@) == Err::<Seq<Option<u64>>, CovError>(
                                    CovError::Underconstrained,
                                ));
                            }
                            return Err(CovError::Underconstrained);
                        }
                        out_acc - in_acc
                    } else {
                        if in_acc < out_acc {
                            proof {
                                assert(resolve_at(f@.arcs, counts@, b as int) == Err::<
                                    (Seq<Option<u64>>, bool),
                                    CovError,
                                >(CovError::Underconstrained));
                                assert(pass_fold(f@.arcs, cp0, 1, stop as int, false) == Err::<
                                    (Seq<Option<u64>>, bool),
                                    CovError,
                                >(CovError::Underconstrained));
                                assert(fix_counts(f@.arcs, ci, stop as int) == Err::<
                                    Seq<Option<u64>>,
                                    CovError,
                                >(CovError::Underconstrained));
                                reveal(spec_infer);
                                assert(spec_infer(f@) == Err::<Seq<Option<u64>>, CovError>(
                                    CovError::Underconstrained,
                                ));
                            }
                            return Err(CovError::Underconstrained);
                        }
                        in_acc - out_acc
                    };
                    if forced > u64::MAX as u128 {
                        proof {
                            assert(resolve_at(f@.arcs, counts@, b as int) == Err::<
                                (Seq<Option<u64>>, bool),
                                CovError,
                            >(CovError::Underconstrained));
                            assert(pass_fold(f@.arcs, cp0, 1, stop as int, false) == Err::<
                                (Seq<Option<u64>>, bool),
                                CovError,
                            >(CovError::Underconstrained));
                            assert(fix_counts(f@.arcs, ci, stop as int) == Err::<
                                Seq<Option<u64>>,
                                CovError,
                            >(CovError::Underconstrained));
                            reveal(spec_infer);
                            assert(spec_infer(f@) == Err::<Seq<Option<u64>>, CovError>(
                                CovError::Underconstrained,
                            ));
                        }
                        return Err(CovError::Underconstrained);
                    }
                    let ghost counts0 = counts@;
                    counts[unknown_idx] = Some(forced as u64);
                    proof {
                        lemma_none_count_update(
                            counts0,
                            unknown_idx as int,
                            forced as u64,
                            na as int,
                        );
                        if !progress {
                            lemma_none_count_bound(counts@, na as int);
                        }
                        assert(resolve_at(f@.arcs, counts0, b as int) == Ok::<
                            (Seq<Option<u64>>, bool),
                            CovError,
                        >((counts@, true)));
                    }
                    progress = true;
                }
            }
            proof {
                assert(pass_fold(f@.arcs, cb0, b as int, stop as int, pg0) == pass_fold(
                    f@.arcs,
                    counts@,
                    b as int + 1,
                    stop as int,
                    progress,
                ));
            }
            b += 1;
        }
        proof {
            lemma_none_count_bound(counts@, na as int);
            assert(pass_fold(f@.arcs, cp0, 1, stop as int, false) == Ok::<
                (Seq<Option<u64>>, bool),
                CovError,
            >((counts@, progress)));
            if progress {
                assert(fix_counts(f@.arcs, cp0, stop as int) == fix_counts(
                    f@.arcs,
                    counts@,
                    stop as int,
                ));
            } else {
                assert(fix_counts(f@.arcs, cp0, stop as int) == Ok::<Seq<Option<u64>>, CovError>(
                    counts@,
                ));
            }
        }
    }
    let mut k3: usize = 0;
    while k3 < na
        invariant
            0 <= k3 <= na,
            na == f@.arcs.len(),
            f@ == old(f)@,
            counts@.len() == na,
            na <= usize::MAX,
            nb == f@.blocks.len(),
            stop as int == if nb >= 2 { nb - 1 } else { 0int },
            fix_counts(f@.arcs, counts_of(f@.arcs), stop as int) == Ok::<
                Seq<Option<u64>>,
                CovError,
            >(counts@),
            forall|i: int|
                0 <= i < na && (#[trigger] f@.arcs[i]).count is Some ==> counts@[i]
                    == f@.arcs[i].count,
            counts_all_some(f@.arcs) ==> counts@ =~= f@.arcs.map_values(|a: ArcCov| a.count),
            forall|i: int| 0 <= i < k3 ==> (#[trigger] counts@[i]) is Some,
        decreases na - k3,
    {
        match counts[k3] {
            Some(_) => {},
            None => {
                proof {
                    if counts_all_some(f@.arcs) {
                        assert(counts@[k3 as int] == f@.arcs[k3 as int].count);
                        assert(false);
                    }
                    assert(!all_counts_some(counts@));
                    reveal(spec_infer);
                    assert(spec_infer(f@) == Err::<Seq<Option<u64>>, CovError>(
                        CovError::Underconstrained,
                    ));
                }
                return Err(CovError::Underconstrained);
            },
        }
        k3 += 1;
    }
    let ghost mav = merged_arcs(f@.arcs, counts@);
    proof {
        if counts_all_some(f@.arcs) {
            assert(mav =~= f@.arcs);
        }
    }
    let mut b2: usize = 1;
    while b2 < stop
        invariant
            na == f@.arcs.len(),
            nb == f@.blocks.len(),
            f@ == old(f)@,
            counts@.len() == na,
            na <= usize::MAX,
            1 <= b2,
            stop as int == if nb >= 2 { nb - 1 } else { 0int },
            fix_counts(f@.arcs, counts_of(f@.arcs), stop as int) == Ok::<
                Seq<Option<u64>>,
                CovError,
            >(counts@),
            mav == merged_arcs(f@.arcs, counts@),
            forall|i: int| 0 <= i < na ==> (#[trigger] counts@[i]) is Some,
            forall|i: int|
                0 <= i < na && (#[trigger] f@.arcs[i]).count is Some ==> counts@[i]
                    == f@.arcs[i].count,
            counts_all_some(f@.arcs) ==> counts@ =~= f@.arcs.map_values(|a: ArcCov| a.count),
            counts_all_some(f@.arcs) ==> mav =~= f@.arcs,
            forall|bb: int|
                0 < bb < b2 && bb < nb - 1 ==> in_sum(mav, bb, na as int) == #[trigger] out_sum(
                    mav,
                    bb,
                    na as int,
                ),
        decreases stop - b2,
    {
        let mut in_acc: u128 = 0;
        let mut out_acc: u128 = 0;
        let mut k4: usize = 0;
        while k4 < na
            invariant
                0 <= k4 <= na,
                na == f@.arcs.len(),
                na <= usize::MAX,
                counts@.len() == na,
                mav == merged_arcs(f@.arcs, counts@),
                forall|i: int| 0 <= i < na ==> (#[trigger] counts@[i]) is Some,
                in_acc as int == in_sum(mav, b2 as int, k4 as int),
                out_acc as int == out_sum(mav, b2 as int, k4 as int),
                in_acc as int <= k4 as int * (u64::MAX as int),
                out_acc as int <= k4 as int * (u64::MAX as int),
            decreases na - k4,
        {
            let a = f.arcs[k4];
            let v: u64 = match counts[k4] {
                Some(v) => v,
                None => {
                    proof {
                        assert(false);
                    }
                    0
                },
            };
            proof {
                assert(mav[k4 as int] == (ArcCov { count: counts@[k4 as int], ..f@.arcs[
                    k4 as int] }));
                assert(arc_val(mav[k4 as int]) == v as int);
            }
            if !a.fake {
                if a.dst == b2 {
                    in_acc = in_acc + v as u128;
                }
                if a.src == b2 {
                    out_acc = out_acc + v as u128;
                }
            }
            k4 += 1;
        }
        if in_acc != out_acc {
            proof {
                if counts_all_some(f@.arcs) && conserved(f@) {
                    assert(in_sum(mav, b2 as int, na as int) == out_sum(mav, b2 as int, na as int));
                    assert(false);
                }
                let gv = FunctionView { arcs: mav, ..f@ };
                assert(!conserved(gv)) by {
                    assert(in_sum(gv.arcs, b2 as int, gv.arcs.len() as int) != out_sum(
                        gv.arcs,
                        b2 as int,
                        gv.arcs.len() as int,
                    ));
                }
                reveal(spec_infer);
                assert(spec_infer(f@) == Err::<Seq<Option<u64>>, CovError>(
                    CovError::Underconstrained,
                ));
            }
            return Err(CovError::Underconstrained);
        }
        b2 += 1;
    }
    let mut new_arcs: Vec<ArcCov> = Vec::new();
    let mut k5: usize = 0;
    while k5 < na
        invariant
            0 <= k5 <= na,
            na == f@.arcs.len(),
            f@ == old(f)@,
            counts@.len() == na,
            nb == f@.blocks.len(),
            stop as int == if nb >= 2 { nb - 1 } else { 0int },
            fix_counts(f@.arcs, counts_of(f@.arcs), stop as int) == Ok::<
                Seq<Option<u64>>,
                CovError,
            >(counts@),
            forall|i: int| 0 <= i < na ==> (#[trigger] counts@[i]) is Some,
            forall|bb: int|
                0 < bb < nb - 1 ==> in_sum(mav, bb, na as int) == #[trigger] out_sum(
                    mav,
                    bb,
                    na as int,
                ),
            mav == merged_arcs(f@.arcs, counts@),
            new_arcs@.len() == k5,
            forall|i: int| 0 <= i < k5 ==> new_arcs@[i] == mav[i],
        decreases na - k5,
    {
        let a = f.arcs[k5];
        new_arcs.push(ArcCov { count: counts[k5], ..a });
        k5 += 1;
    }
    let ghost old_view = f@;
    f.arcs = new_arcs;
    proof {
        assert(f@.arcs =~= mav);
        assert(same_shape(old(f)@, f@));
        assert(counts_all_some(f@.arcs));
        assert(counts_preserved(old(f)@.arcs, f@.arcs));
        assert forall|bb: int| 0 < bb < f@.blocks.len() - 1 implies in_sum(
            f@.arcs,
            bb,
            f@.arcs.len() as int,
        ) == #[trigger] out_sum(f@.arcs, bb, f@.arcs.len() as int) by {
            assert(in_sum(mav, bb, na as int) == out_sum(mav, bb, na as int));
        }
        assert(conserved(f@));
        assert(all_counts_some(counts@));
        assert(conserved(FunctionView { arcs: merged_arcs(old(f)@.arcs, counts@), ..old(f)@ }))
            by {
            assert(FunctionView { arcs: merged_arcs(old(f)@.arcs, counts@), ..old(f)@ } =~~= f@);
        }
        reveal(spec_infer);
        assert(spec_infer(old(f)@) == Ok::<Seq<Option<u64>>, CovError>(counts@));
        assert(counts_of(f@.arcs) =~= counts@);
    }
    Ok(())
}

/// Two assignments over equally-shaped arcs that agree everywhere except
/// possibly at `u` have in-flow sums differing exactly by their difference
/// at `u`, when `u` contributes, and not at all otherwise.
pub proof fn lemma_in_sum_diff(h1: Seq<ArcCov>, h2: Seq<ArcCov>, b: int, upto: int, u: int)
    requires
        h1.len() == h2.len(),
        0 <= u < h1.len(),
        upto <= h1.len(),
        forall|k: int|
            0 <= k < h1.len() ==> (#[trigger] h1[k]).src == h2[k].src && h1[k].dst == h2[k].dst
                && h1[k].fake == h2[k].fake,
        forall|k: int| 0 <= k < h1.len() && k != u ==> arc_val(#[trigger] h1[k]) == arc_val(h2[k]),
    ensures
        in_sum(h1, b, upto) - in_sum(h2, b, upto) == if u < upto && h1[u].dst == b && !h1[u].fake {
            arc_val(h1[u]) - arc_val(h2[u])
        } else {
            0
        },
    decreases upto,
{
    if upto > 0 {
        lemma_in_sum_diff(h1, h2, b, upto - 1, u);
    }
}

/// The out-flow counterpart of `lemma_in_sum_diff`.
pub proof fn lemma_out_sum_diff(h1: Seq<ArcCov>, h2: Seq<ArcCov>, b: int, upto: int, u: int)
    requires
        h1.len() == h2.len(),
        0 <= u < h1.len(),
        upto <= h1.len(),
        forall|k: int|
            0 <= k < h1.len() ==> (#[trigger] h1[k]).src == h2[k].src && h1[k].dst == h2[k].dst
                && h1[k].fake == h2[k].fake,
        forall|k: int| 0 <= k < h1.len() && k != u ==> arc_val(#[trigger] h1[k]) == arc_val(h2[k]),
    ensures
        out_sum(h1, b, upto) - out_sum(h2, b, upto) == if u < upto && h1[u].src == b && !h1[u].fake {
            arc_val(h1[u]) - arc_val(h2[u])
        } else {
            0
        },
    decreases upto,
{
    if upto > 0 {
        lemma_out_sum_diff(h1, h2, b, upto - 1, u);
    }
}

/// Law: a resolution step of the fixed-point scan has exactly one possible
/// outcome. At a block where every incident non-fake arc except one is
/// known, any two count assignments that conserve flow at that block and
/// agree on all other arcs also agree on the remaining one: the conservation
/// law forces its value, whatever order blocks are visited in.
pub proof fn lemma_forced_value_unique(h1: Seq<ArcCov>, h2: Seq<ArcCov>, b: int, u: int)
    requires
        h1.len() == h2.len(),
        0 <= u < h1.len(),
        forall|k: int|
            0 <= k < h1.len() ==> (#[trigger] h1[k]).src == h2[k].src && h1[k].dst == h2[k].dst
                && h1[k].fake == h2[k].fake,
        forall|k: int| 0 <= k < h1.len() && k != u ==> arc_val(#[trigger] h1[k]) == arc_val(h2[k]),
        in_sum(h1, b, h1.len() as int) == out_sum(h1, b, h1.len() as int),
        in_sum(h2, b, h2.len() as int) == out_sum(h2, b, h2.len() as int),
        !h1[u].fake,
        h1[u].dst == b || h1[u].src == b,
        !(h1[u].dst == b && h1[u].src == b),
    ensures
        arc_val(h1[u]) == arc_val(h2[u]),
{
    lemma_in_sum_diff(h1, h2, b, h1.len() as int, u);
    lemma_out_sum_diff(h1, h2, b, h1.len() as int, u);
}

} // verus!
