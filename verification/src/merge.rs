//! Counter merger: walks a data-stream record list and accumulates execution
//! counters onto the on-tree arcs of the matching functions, in arc
//! declaration order.
//!
//! A checksum mismatch, or a counter record whose length does not match the
//! function's on-tree arc count, is fatal for that one function's merge: a
//! `Checksum` warning is collected and the function is left untouched, while
//! the rest of the stream still merges. A function present in the graph but
//! absent from the data stream simply receives no contribution. Counters from
//! repeated runs accumulate by saturating addition, so merging is commutative
//! across runs (see `lemma_apply_counts_commutes`).
//!
//! The record list is expected to come from a data-stream decode, which
//! yields only function-announcement and counter records; records of other
//! kinds are ignored.

use crate::error::{CovError, Warning};
use crate::graph::{functions_view, ArcCov, FunctionCov, FunctionView};
use crate::reader::{records_view, Record, RecordView};
use vstd::prelude::*;

verus! {

/// Saturating 64-bit addition.
pub open spec fn sat_add64(a: u64, b: u64) -> u64 {
    if a + b > u64::MAX {
        u64::MAX
    } else {
        (a + b) as u64
    }
}

/// Accumulates one literal counter onto an arc's count.
pub open spec fn add_count(c: Option<u64>, v: u64) -> Option<u64> {
    match c {
        None => Some(v),
        Some(a) => Some(sat_add64(a, v)),
    }
}

/// Number of on-tree arcs among the first `upto` arcs.
pub open spec fn on_tree_count(arcs: Seq<ArcCov>, upto: int) -> int
    decreases upto,
{
    if upto <= 0 {
        0
    } else {
        on_tree_count(arcs, upto - 1) + if arcs[upto - 1].on_tree {
            1int
        } else {
            0int
        }
    }
}

/// The on-tree prefix count never decreases and never exceeds the prefix length.
pub proof fn lemma_on_tree_count_mono(arcs: Seq<ArcCov>, k1: int, k2: int)
    requires
        0 <= k1 <= k2,
    ensures
        on_tree_count(arcs, k1) <= on_tree_count(arcs, k2) <= on_tree_count(arcs, k1) + (k2 - k1),
    decreases k2 - k1,
{
    if k1 < k2 {
        lemma_on_tree_count_mono(arcs, k1, k2 - 1);
    }
}

/// One run's counters applied to a function: the `j`-th counter accumulates
/// onto the `j`-th on-tree arc, in declaration order; all else is unchanged.
pub open spec fn apply_counts(f: FunctionView, values: Seq<u64>) -> FunctionView {
    FunctionView {
        arcs: Seq::new(
            f.arcs.len(),
            |i: int|
                if f.arcs[i].on_tree {
                    ArcCov {
                        count: add_count(f.arcs[i].count, values[on_tree_count(f.arcs, i)]),
                        ..f.arcs[i]
                    }
                } else {
                    f.arcs[i]
                },
        ),
        ..f
    }
}

/// `i` is the first index in `fs` announcing this ident.
pub open spec fn is_first_ident(fs: Seq<FunctionView>, ident: u32, i: int) -> bool {
    &&& 0 <= i < fs.len()
    &&& fs[i].ident == ident
    &&& forall|j: int| 0 <= j < i ==> fs[j].ident != ident
}

/// The first function with this ident, if any.
pub open spec fn find_ident(fs: Seq<FunctionView>, ident: u32) -> Option<int> {
    if exists|i: int| is_first_ident(fs, ident, i) {
        Some(choose|i: int| is_first_ident(fs, ident, i))
    } else {
        None
    }
}

/// Two functions that differ at most in their arcs' counts.
pub open spec fn same_shape(a: FunctionView, b: FunctionView) -> bool {
    &&& a.ident == b.ident
    &&& a.checksum == b.checksum
    &&& a.name == b.name
    &&& a.path == b.path
    &&& a.line == b.line
    &&& a.blocks == b.blocks
    &&& a.arcs.len() == b.arcs.len()
    &&& forall|k: int|
        0 <= k < a.arcs.len() ==> (#[trigger] a.arcs[k]).src == b.arcs[k].src && a.arcs[k].dst
            == b.arcs[k].dst && a.arcs[k].on_tree == b.arcs[k].on_tree && a.arcs[k].fake
            == b.arcs[k].fake && a.arcs[k].fallthrough == b.arcs[k].fallthrough
}

/// State of the merger: the graph, the function the next counter record
/// applies to, and the warnings collected so far.
#[verifier::ext_equal]
pub struct MergeState {
    pub fs: Seq<FunctionView>,
    pub target: Option<int>,
    pub warns: Seq<Warning>,
}

/// One step of the merger over a data-stream record.
pub open spec fn merge_step(st: MergeState, r: RecordView) -> MergeState {
    match r {
        RecordView::FunctionData { ident, checksum } => match find_ident(st.fs, ident) {
            None => MergeState { target: None, ..st },
            Some(i) => if st.fs[i].checksum != checksum {
                MergeState {
                    target: None,
                    warns: st.warns.push(Warning { name: st.fs[i].name, kind: CovError::Checksum }),
                    ..st
                }
            } else {
                MergeState { target: Some(i), ..st }
            },
        },
        RecordView::Counts { values } => match st.target {
            None => st,
            Some(i) => if values.len() != on_tree_count(st.fs[i].arcs, st.fs[i].arcs.len() as int) {
                MergeState {
                    target: None,
                    warns: st.warns.push(Warning { name: st.fs[i].name, kind: CovError::Checksum }),
                    ..st
                }
            } else {
                MergeState {
                    fs: st.fs.update(i, apply_counts(st.fs[i], values)),
                    target: None,
                    ..st
                }
            },
        },
        _ => st,
    }
}

/// Folds the merger over a record sequence.
pub open spec fn merge_fold(records: Seq<RecordView>, st: MergeState) -> MergeState
    decreases records.len(),
{
    if records.len() == 0 {
        st
    } else {
        merge_fold(records.drop_first(), merge_step(st, records[0]))
    }
}

/// What merging one data-stream record list into a graph yields: the updated
/// functions and the warnings raised.
pub open spec fn spec_merge(fs: Seq<FunctionView>, records: Seq<RecordView>) -> (
    Seq<FunctionView>,
    Seq<Warning>,
) {
    let st = merge_fold(records, MergeState { fs, target: None, warns: Seq::empty() });
    (st.fs, st.warns)
}

/// Counts the on-tree arcs of a whole arc list.
pub fn count_on_tree(arcs: &Vec<ArcCov>) -> (n: usize)
    ensures
        n as int == on_tree_count(arcs@, arcs@.len() as int),
{
    let m = arcs.len();
    let mut n: usize = 0;
    let mut k: usize = 0;
    while k < m
        invariant
            0 <= k <= m,
            m == arcs@.len(),
            n as int == on_tree_count(arcs@, k as int),
            n <= k,
        decreases m - k,
    {
        if arcs[k].on_tree {
            n += 1;
        }
        k += 1;
    }
    n
}

/// Applies one run's counter values to a function, in on-tree declaration
/// order, accumulating by saturating addition.
pub fn apply_run(f: &mut FunctionCov, values: &Vec<u64>)
    requires
        values@.len() == on_tree_count(old(f)@.arcs, old(f)@.arcs.len() as int),
    ensures
        final(f)@ == apply_counts(old(f)@, values@),
{
    let m = f.arcs.len();
    let vlen = values.len();
    assert(vlen as int == values@.len());
    let mut new_arcs: Vec<ArcCov> = Vec::new();
    let mut j: usize = 0;
    let mut k: usize = 0;
    while k < m
        invariant
            0 <= k <= m,
            m == f@.arcs.len(),
            f@ == old(f)@,
            values@.len() <= usize::MAX,
            values@.len() == on_tree_count(f@.arcs, m as int),
            j as int == on_tree_count(f@.arcs, k as int),
            new_arcs@.len() == k,
            forall|l: int|
                0 <= l < k ==> new_arcs@[l] == apply_counts(f@, values@).arcs[l],
        decreases m - k,
    {
        let a = f.arcs[k];
        proof {
            lemma_on_tree_count_mono(f@.arcs, k as int + 1, m as int);
        }
        if a.on_tree {
            proof {
                assert(f@.arcs[k as int].on_tree);
                assert(on_tree_count(f@.arcs, k as int + 1) == j as int + 1);
                assert(j as int + 1 <= values@.len());
            }
            let v = values[j];
            let c = match a.count {
                None => v,
                Some(cv) => cv.saturating_add(v),
            };
            new_arcs.push(ArcCov { count: Some(c), ..a });
            j += 1;
        } else {
            new_arcs.push(a);
        }
        k += 1;
    }
    f.arcs = new_arcs;
    proof {
        assert(f@.arcs =~= apply_counts(old(f)@, values@).arcs);
        assert(f@ =~~= apply_counts(old(f)@, values@));
    }
}

/// Finds the first function announcing this ident.
pub fn find_by_ident(functions: &Vec<FunctionCov>, ident: u32) -> (r: Option<usize>)
    ensures
        match r {
            Some(i) => i < functions@.len() && find_ident(functions_view(functions@), ident)
                == Some(i as int),
            None => find_ident(functions_view(functions@), ident) is None,
        },
{
    let ghost fv = functions_view(functions@);
    let m = functions.len();
    let mut k: usize = 0;
    while k < m
        invariant
            0 <= k <= m,
            m == functions@.len(),
            fv == functions_view(functions@),
            forall|j: int| 0 <= j < k ==> (#[trigger] fv[j]).ident != ident,
        decreases m - k,
    {
        if functions[k].ident == ident {
            proof {
                assert(fv[k as int] == functions@[k as int]@);
                assert(is_first_ident(fv, ident, k as int));
                let i = choose|i: int| is_first_ident(fv, ident, i);
                assert(is_first_ident(fv, ident, i));
                assert(i == k as int);
            }
            return Some(k);
        }
        proof {
            assert(fv[k as int] == functions@[k as int]@);
        }
        k += 1;
    }
    proof {
        if exists|i: int| is_first_ident(fv, ident, i) {
            let i = choose|i: int| is_first_ident(fv, ident, i);
            assert(fv[i].ident != ident);
        }
    }
    None
}

/// Merges one data-stream record list into the graph: assigns each counter
/// record's values to the on-tree arcs of the function the preceding
/// function record announced, accumulating across runs. Checksum and
/// counter-length mismatches warn and leave that function untouched.
#[verifier::rlimit(50)]
pub fn merge_data(functions: &mut Vec<FunctionCov>, records: &Vec<Record>, warnings: &mut Vec<
    Warning,
>)
    ensures
        functions_view(final(functions)@) == spec_merge(
            functions_view(old(functions)@),
            records_view(records@),
        ).0,
        final(warnings)@ == old(warnings)@ + spec_merge(
            functions_view(old(functions)@),
            records_view(records@),
        ).1,
        final(functions)@.len() == old(functions)@.len(),
        forall|i: int|
            0 <= i < old(functions)@.len() ==> same_shape(
                #[trigger] functions_view(old(functions)@)[i],
                functions_view(final(functions)@)[i],
            ),
{
    let ghost all = records_view(records@);
    let ghost fs0 = functions_view(old(functions)@);
    let ghost w0 = old(warnings)@;
    let ghost wlen0 = old(warnings)@.len();
    let n = records.len();
    let mut target: Option<usize> = None;
    let mut idx: usize = 0;
    proof {
        assert(all.skip(0) =~= all);
        assert(warnings@.skip(wlen0 as int) =~= Seq::<Warning>::empty());
    }
    while idx < n
        invariant
            n == records@.len(),
            0 <= idx <= n,
            all == records_view(records@),
            fs0 == functions_view(old(functions)@),
            w0 == old(warnings)@,
            wlen0 == w0.len(),
            warnings@.len() >= wlen0,
            warnings@.subrange(0, wlen0 as int) == w0,
            merge_fold(all, MergeState { fs: fs0, target: None, warns: Seq::empty() })
                == merge_fold(
                all.skip(idx as int),
                MergeState {
                    fs: functions_view(functions@),
                    target: match target {
                        Some(i) => Some(i as int),
                        None => None,
                    },
                    warns: warnings@.skip(wlen0 as int),
                },
            ),
            match target {
                Some(i) => i < functions@.len(),
                None => true,
            },
            functions@.len() == fs0.len(),
            forall|i: int|
                0 <= i < fs0.len() ==> same_shape(
                    #[trigger] fs0[i],
                    functions_view(functions@)[i],
                ),
        decreases n - idx,
    {
        let ghost st0 = MergeState {
            fs: functions_view(functions@),
            target: match target {
                Some(i) => Some(i as int),
                None => None,
            },
            warns: warnings@.skip(wlen0 as int),
        };
        proof {
            assert(all.skip(idx as int)[0] == all[idx as int]);
            assert(all.skip(idx as int).drop_first() =~= all.skip(idx as int + 1));
            assert(all[idx as int] == records@[idx as int]@);
        }
        let rec = &records[idx];
        match rec {
            Record::FunctionData { ident, checksum } => {
                match find_by_ident(functions, *ident) {
                    None => {
                        target = None;
                    },
                    Some(i) => {
                        if functions[i].checksum != *checksum {
                            target = None;
                            let name = functions[i].name;
                            warnings.push(Warning { name, kind: CovError::Checksum });
                            proof {
                                assert(warnings@.skip(wlen0 as int) =~= st0.warns.push(
                                    Warning {
                                        name: st0.fs[i as int].name,
                                        kind: CovError::Checksum,
                                    },
                                ));
                                assert(warnings@.subrange(0, wlen0 as int) =~= w0);
                            }
                        } else {
                            target = Some(i);
                        }
                    },
                }
                proof {
                    let stn = MergeState {
                        fs: functions_view(functions@),
                        target: match target {
                            Some(i) => Some(i as int),
                            None => None,
                        },
                        warns: warnings@.skip(wlen0 as int),
                    };
                    assert(merge_step(st0, all[idx as int]) =~~= stn);
                }
            },
            Record::Counts { values } => {
                match target {
                    None => {
                        proof {
                            let stn = MergeState {
                                fs: functions_view(functions@),
                                target: None,
                                warns: warnings@.skip(wlen0 as int),
                            };
                            assert(merge_step(st0, all[idx as int]) =~~= stn);
                        }
                    },
                    Some(i) => {
                        let cnt = count_on_tree(&functions[i].arcs);
                        if values.len() != cnt {
                            target = None;
                            let name = functions[i].name;
                            warnings.push(Warning { name, kind: CovError::Checksum });
                            proof {
                                assert(warnings@.skip(wlen0 as int) =~= st0.warns.push(
                                    Warning {
                                        name: st0.fs[i as int].name,
                                        kind: CovError::Checksum,
                                    },
                                ));
                                assert(warnings@.subrange(0, wlen0 as int) =~= w0);
                                let stn = MergeState {
                                    fs: functions_view(functions@),
                                    target: None,
                                    warns: warnings@.skip(wlen0 as int),
                                };
                                assert(merge_step(st0, all[idx as int]) =~~= stn);
                            }
                        } else {
                            let ghost prev_fs = functions_view(functions@);
                            apply_run(&mut functions[i], values);
                            target = None;
                            proof {
                                assert(functions_view(functions@) =~= prev_fs.update(
                                    i as int,
                                    apply_counts(prev_fs[i as int], values@),
                                ));
                                let stn = MergeState {
                                    fs: functions_view(functions@),
                                    target: None,
                                    warns: warnings@.skip(wlen0 as int),
                                };
                                assert(merge_step(st0, all[idx as int]) =~~= stn);
                            }
                        }
                    },
                }
            },
            _ => {
                proof {
                    let stn = MergeState {
                        fs: functions_view(functions@),
                        target: match target {
                            Some(i) => Some(i as int),
                            None => None,
                        },
                        warns: warnings@.skip(wlen0 as int),
                    };
                    assert(merge_step(st0, all[idx as int]) =~~= stn);
                }
            },
        }
        idx += 1;
    }
    proof {
        assert(all.skip(idx as int) =~= Seq::<RecordView>::empty());
        assert(w0 + warnings@.skip(wlen0 as int) =~= warnings@);
    }
}

/// Law: merging the same runs in either order yields identical counts.
/// Applying two counter lists to a function commutes, so accumulating any
/// set of data files is independent of the order they arrive in.
pub proof fn lemma_apply_counts_commutes(f: FunctionView, v1: Seq<u64>, v2: Seq<u64>)
    requires
        v1.len() == on_tree_count(f.arcs, f.arcs.len() as int),
        v2.len() == on_tree_count(f.arcs, f.arcs.len() as int),
    ensures
        apply_counts(apply_counts(f, v1), v2) == apply_counts(apply_counts(f, v2), v1),
{
    lemma_apply_counts_shape(f, v1);
    lemma_apply_counts_shape(f, v2);
    let a = apply_counts(apply_counts(f, v1), v2);
    let b = apply_counts(apply_counts(f, v2), v1);
    assert forall|i: int| 0 <= i < f.arcs.len() implies a.arcs[i] == b.arcs[i] by {
        lemma_on_tree_prefix_same(f.arcs, apply_counts(f, v1).arcs, i);
        lemma_on_tree_prefix_same(f.arcs, apply_counts(f, v2).arcs, i);
        if f.arcs[i].on_tree {
            let j = on_tree_count(f.arcs, i);
            lemma_on_tree_count_mono(f.arcs, i + 1, f.arcs.len() as int);
            assert(on_tree_count(f.arcs, i + 1) == j + 1);
        }
    }
    assert(a.arcs =~= b.arcs);
    assert(a =~~= b);
}

/// Applying counters leaves every arc's shape (and so the on-tree order)
/// unchanged.
pub proof fn lemma_apply_counts_shape(f: FunctionView, v: Seq<u64>)
    ensures
        same_shape(f, apply_counts(f, v)),
{
}

/// A function keeps its structural well-formedness and symbol bounds under
/// any change that preserves its shape.
pub proof fn lemma_same_shape_wf(a: FunctionView, b: FunctionView, n: int)
    requires
        same_shape(a, b),
    ensures
        crate::graph::fn_wf(a) ==> crate::graph::fn_wf(b),
        crate::graph::fn_syms_ok(a, n) ==> crate::graph::fn_syms_ok(b, n),
{
    if crate::graph::fn_wf(a) {
        assert forall|i: int| 0 <= i < b.arcs.len() implies (#[trigger] b.arcs[i]).src
            < b.blocks.len() && b.arcs[i].dst < b.blocks.len() by {
            assert(a.arcs[i].src < a.blocks.len() && a.arcs[i].dst < a.blocks.len());
        }
    }
}

/// Two arc lists with the same on-tree flags have the same prefix counts.
pub proof fn lemma_on_tree_prefix_same(a: Seq<ArcCov>, b: Seq<ArcCov>, upto: int)
    requires
        a.len() == b.len(),
        forall|k: int| 0 <= k < a.len() ==> (#[trigger] a[k]).on_tree == b[k].on_tree,
        upto <= a.len(),
    ensures
        on_tree_count(a, upto) == on_tree_count(b, upto),
    decreases upto,
{
    if upto > 0 {
        lemma_on_tree_prefix_same(a, b, upto - 1);
    }
}

} // verus!
