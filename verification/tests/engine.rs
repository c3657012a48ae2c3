use cov::aggregate::ExportReport;
use cov::error::CovError;
use cov::interner::Interner;
use cov::session::{process_data, process_notes, report_session, resolve_functions};
use cov::sourcepath::{SourceType, ALL};

fn w32(out: &mut Vec<u8>, v: u32) {
    out.extend_from_slice(&v.to_le_bytes());
}

fn record(out: &mut Vec<u8>, tag: u32, payload: &[u8]) {
    w32(out, tag);
    w32(out, payload.len() as u32);
    out.extend_from_slice(payload);
}

fn string(out: &mut Vec<u8>, s: &str) {
    w32(out, s.len() as u32);
    out.extend_from_slice(s.as_bytes());
}

fn header(kind_magic: u32) -> Vec<u8> {
    let mut v = Vec::new();
    w32(&mut v, kind_magic);
    w32(&mut v, 1);
    v
}

fn function_record(ident: u32, checksum: u32, name: &str, path: &str, line: u32) -> Vec<u8> {
    let mut p = Vec::new();
    w32(&mut p, ident);
    w32(&mut p, checksum);
    string(&mut p, name);
    string(&mut p, path);
    w32(&mut p, line);
    p
}

fn blocks_record(count: u32) -> Vec<u8> {
    let mut p = Vec::new();
    w32(&mut p, count);
    p
}

fn arcs_record(src: u32, arcs: &[(u32, u32)]) -> Vec<u8> {
    let mut p = Vec::new();
    w32(&mut p, src);
    for (dst, flags) in arcs {
        w32(&mut p, *dst);
        w32(&mut p, *flags);
    }
    p
}

fn lines_record(block: u32, path: &str, lines: &[u32]) -> Vec<u8> {
    let mut p = Vec::new();
    w32(&mut p, block);
    w32(&mut p, 0);
    string(&mut p, path);
    for l in lines {
        w32(&mut p, *l);
    }
    p
}

fn data_function(ident: u32, checksum: u32) -> Vec<u8> {
    let mut p = Vec::new();
    w32(&mut p, ident);
    w32(&mut p, checksum);
    p
}

fn counts_record(values: &[u64]) -> Vec<u8> {
    let mut p = Vec::new();
    for v in values {
        w32(&mut p, (*v & 0xFFFF_FFFF) as u32);
        w32(&mut p, (*v >> 32) as u32);
    }
    p
}

const NOTES: u32 = 0x67636e6f;
const DATA: u32 = 0x67636461;
const ON_TREE: u32 = 1;

/// Notes stream: one function `f` in `a.rs`, two blocks, one on-tree arc,
/// line 10 attributed to the entry block.
fn simple_notes() -> Vec<u8> {
    let mut n = header(NOTES);
    record(&mut n, 1, &function_record(1, 0xABCD, "f", "a.rs", 10));
    record(&mut n, 2, &blocks_record(2));
    record(&mut n, 3, &arcs_record(0, &[(1, ON_TREE)]));
    record(&mut n, 4, &lines_record(0, "a.rs", &[10]));
    n
}

fn simple_data(count: u64) -> Vec<u8> {
    let mut d = header(DATA);
    record(&mut d, 1, &data_function(1, 0xABCD));
    record(&mut d, 5, &counts_record(&[count]));
    d
}

fn all_types() -> SourceType {
    SourceType { bits: ALL }
}

fn line_of(report: &ExportReport, path: &str, func: &str, line: u32) -> Option<cov::aggregate::LineStat> {
    for f in &report.files {
        if f.path == path {
            for g in &f.functions {
                if g.name == func {
                    for l in &g.lines {
                        if l.line == line {
                            return Some(*l);
                        }
                    }
                }
            }
        }
    }
    None
}

#[test]
fn simple_session_line_count() {
    let notes = simple_notes();
    let datas = vec![simple_data(5)];
    let (report, warnings) = report_session(&notes, &datas, all_types(), "/ws").unwrap();
    assert!(warnings.is_empty());
    assert_eq!(report.files.len(), 1);
    assert_eq!(report.files[0].path, "a.rs");
    assert_eq!(report.files[0].functions.len(), 1);
    assert_eq!(report.files[0].functions[0].name, "f");
    let l = line_of(&report, "a.rs", "f", 10).unwrap();
    assert_eq!(l.count, 5);
    assert!(l.executed);
}

/// A diamond with one measured branch arm: decoding the pair reproduces the
/// exact per-line counts, including the inferred arm.
#[test]
fn round_trip_branch_counts() {
    let mut n = header(NOTES);
    record(&mut n, 1, &function_record(7, 42, "branchy", "m.rs", 1));
    record(&mut n, 2, &blocks_record(4));
    record(&mut n, 3, &arcs_record(0, &[(1, ON_TREE)]));
    record(&mut n, 3, &arcs_record(1, &[(2, ON_TREE), (3, 0)]));
    record(&mut n, 3, &arcs_record(2, &[(3, 0)]));
    record(&mut n, 4, &lines_record(1, "m.rs", &[2]));
    record(&mut n, 4, &lines_record(2, "m.rs", &[3]));
    let mut d = header(DATA);
    record(&mut d, 1, &data_function(7, 42));
    record(&mut d, 5, &counts_record(&[7, 3]));
    let datas = vec![d];
    let (report, warnings) = report_session(&n, &datas, all_types(), "/ws").unwrap();
    assert!(warnings.is_empty());
    let l2 = line_of(&report, "m.rs", "branchy", 2).unwrap();
    assert_eq!(l2.count, 7);
    assert!(l2.executed);
    assert_eq!(l2.branch_total, 2);
    assert_eq!(l2.branch_taken, 2);
    let l3 = line_of(&report, "m.rs", "branchy", 3).unwrap();
    assert_eq!(l3.count, 3);
    assert!(l3.executed);
}

/// The same stream encoded big-endian decodes identically.
#[test]
fn big_endian_stream_detected() {
    let notes_le = simple_notes();
    let mut notes_be = Vec::new();
    let be32 = |out: &mut Vec<u8>, v: u32| out.extend_from_slice(&v.to_be_bytes());
    be32(&mut notes_be, NOTES);
    be32(&mut notes_be, 1);
    // function record
    let mut p: Vec<u8> = Vec::new();
    be32(&mut p, 1);
    be32(&mut p, 0xABCD);
    be32(&mut p, 1);
    p.extend_from_slice(b"f");
    be32(&mut p, 4);
    p.extend_from_slice(b"a.rs");
    be32(&mut p, 10);
    be32(&mut notes_be, 1);
    be32(&mut notes_be, p.len() as u32);
    notes_be.extend_from_slice(&p);
    // blocks
    be32(&mut notes_be, 2);
    be32(&mut notes_be, 4);
    be32(&mut notes_be, 2);
    // arcs
    be32(&mut notes_be, 3);
    be32(&mut notes_be, 12);
    be32(&mut notes_be, 0);
    be32(&mut notes_be, 1);
    be32(&mut notes_be, ON_TREE);
    // lines
    let mut q: Vec<u8> = Vec::new();
    be32(&mut q, 0);
    be32(&mut q, 0);
    be32(&mut q, 4);
    q.extend_from_slice(b"a.rs");
    be32(&mut q, 10);
    be32(&mut notes_be, 4);
    be32(&mut notes_be, q.len() as u32);
    notes_be.extend_from_slice(&q);

    let mut int_a = Interner::new();
    let fs_a = process_notes(&notes_le, &mut int_a).unwrap();
    let mut int_b = Interner::new();
    let fs_b = process_notes(&notes_be, &mut int_b).unwrap();
    assert_eq!(fs_a.len(), fs_b.len());
    assert_eq!(fs_a[0].ident, fs_b[0].ident);
    assert_eq!(fs_a[0].checksum, fs_b[0].checksum);
    assert_eq!(fs_a[0].blocks.len(), fs_b[0].blocks.len());
    assert_eq!(fs_a[0].arcs.len(), fs_b[0].arcs.len());
}

/// Checksum mismatch on one function leaves the rest aggregated, warns by
/// name, and drops the mismatched function from the output.
#[test]
fn checksum_mismatch_scoped_to_one_function() {
    let mut n = header(NOTES);
    record(&mut n, 1, &function_record(1, 10, "f", "a.rs", 1));
    record(&mut n, 2, &blocks_record(2));
    record(&mut n, 3, &arcs_record(0, &[(1, ON_TREE)]));
    record(&mut n, 4, &lines_record(0, "a.rs", &[1]));
    record(&mut n, 1, &function_record(2, 20, "g", "a.rs", 9));
    record(&mut n, 2, &blocks_record(2));
    record(&mut n, 3, &arcs_record(0, &[(1, ON_TREE)]));
    record(&mut n, 4, &lines_record(0, "a.rs", &[9]));
    let mut d = header(DATA);
    record(&mut d, 1, &data_function(1, 10));
    record(&mut d, 5, &counts_record(&[4]));
    record(&mut d, 1, &data_function(2, 99));
    record(&mut d, 5, &counts_record(&[6]));
    let datas = vec![d];
    let (report, warnings) = report_session(&n, &datas, all_types(), "/ws").unwrap();
    let checksum_warnings: Vec<_> =
        warnings.iter().filter(|w| w.kind == CovError::Checksum).collect();
    assert_eq!(checksum_warnings.len(), 1);
    assert_eq!(checksum_warnings[0].name, "g");
    assert!(line_of(&report, "a.rs", "f", 1).is_some());
    for f in &report.files {
        for g in &f.functions {
            assert_ne!(g.name, "g");
        }
    }
}

/// A line attributed to two blocks (inlined call) with counts 3 and 0 sums
/// to 3 and counts as executed.
#[test]
fn inlined_line_sums_blocks() {
    let mut n = header(NOTES);
    record(&mut n, 1, &function_record(3, 5, "h", "x.rs", 7));
    record(&mut n, 2, &blocks_record(4));
    record(&mut n, 3, &arcs_record(0, &[(1, ON_TREE), (2, ON_TREE)]));
    record(&mut n, 3, &arcs_record(1, &[(3, 0)]));
    record(&mut n, 3, &arcs_record(2, &[(3, 0)]));
    record(&mut n, 4, &lines_record(1, "x.rs", &[7]));
    record(&mut n, 4, &lines_record(2, "x.rs", &[7]));
    let mut d = header(DATA);
    record(&mut d, 1, &data_function(3, 5));
    record(&mut d, 5, &counts_record(&[3, 0]));
    let datas = vec![d];
    let (report, warnings) = report_session(&n, &datas, all_types(), "/ws").unwrap();
    assert!(warnings.is_empty());
    let l = line_of(&report, "x.rs", "h", 7).unwrap();
    assert_eq!(l.count, 3);
    assert!(l.executed);
}

/// Merging the same data files in either order yields identical per-arc
/// counts.
#[test]
fn merge_order_independent() {
    let run_a = simple_data(5);
    let run_b = simple_data(11);
    let notes = simple_notes();

    let mut int1 = Interner::new();
    let mut fs1 = process_notes(&notes, &mut int1).unwrap();
    let mut w1 = Vec::new();
    process_data(&mut fs1, &run_a, &mut w1).unwrap();
    process_data(&mut fs1, &run_b, &mut w1).unwrap();

    let mut int2 = Interner::new();
    let mut fs2 = process_notes(&notes, &mut int2).unwrap();
    let mut w2 = Vec::new();
    process_data(&mut fs2, &run_b, &mut w2).unwrap();
    process_data(&mut fs2, &run_a, &mut w2).unwrap();

    assert_eq!(fs1.len(), fs2.len());
    for (a, b) in fs1.iter().zip(fs2.iter()) {
        assert_eq!(a.arcs.len(), b.arcs.len());
        for (x, y) in a.arcs.iter().zip(b.arcs.iter()) {
            assert_eq!(x.count, y.count);
        }
        assert_eq!(a.arcs[0].count, Some(16));
    }
}

/// Flow conservation holds at every internal block once inference resolves
/// every arc.
#[test]
fn conservation_at_internal_blocks() {
    let mut n = header(NOTES);
    record(&mut n, 1, &function_record(7, 42, "branchy", "m.rs", 1));
    record(&mut n, 2, &blocks_record(4));
    record(&mut n, 3, &arcs_record(0, &[(1, ON_TREE)]));
    record(&mut n, 3, &arcs_record(1, &[(2, ON_TREE), (3, 0)]));
    record(&mut n, 3, &arcs_record(2, &[(3, 0)]));
    let mut d = header(DATA);
    record(&mut d, 1, &data_function(7, 42));
    record(&mut d, 5, &counts_record(&[7, 3]));
    let mut interner = Interner::new();
    let mut fs = process_notes(&n, &mut interner).unwrap();
    let mut warnings = Vec::new();
    process_data(&mut fs, &d, &mut warnings).unwrap();
    let selected = resolve_functions(&mut fs, &mut warnings);
    assert!(selected.iter().all(|s| *s));
    let f = &fs[0];
    for b in 1..f.blocks.len() - 1 {
        let mut inflow: u128 = 0;
        let mut outflow: u128 = 0;
        for a in &f.arcs {
            if a.fake {
                continue;
            }
            let c = a.count.unwrap() as u128;
            if a.dst == b {
                inflow += c;
            }
            if a.src == b {
                outflow += c;
            }
        }
        assert_eq!(inflow, outflow);
    }
    // the unmeasured arcs carry exactly the values conservation forces
    for a in &f.arcs {
        if a.src == 1 && a.dst == 3 {
            assert_eq!(a.count, Some(4));
        }
        if a.src == 2 && a.dst == 3 {
            assert_eq!(a.count, Some(3));
        }
    }
}

/// An unrecognized magic token is a format error.
#[test]
fn bad_magic_is_format_error() {
    let mut n = Vec::new();
    w32(&mut n, 0xDEADBEEF);
    w32(&mut n, 1);
    let mut interner = Interner::new();
    assert_eq!(process_notes(&n, &mut interner).unwrap_err(), CovError::Format);
}

/// A version outside the supported range is a version error.
#[test]
fn unsupported_version_is_version_error() {
    let mut n = Vec::new();
    w32(&mut n, NOTES);
    w32(&mut n, 99);
    let mut interner = Interner::new();
    assert_eq!(process_notes(&n, &mut interner).unwrap_err(), CovError::Version);
}

/// A stream that ends in the middle of a record is a truncation error.
#[test]
fn truncated_stream_is_truncated_error() {
    let mut n = simple_notes();
    n.truncate(n.len() - 3);
    let mut interner = Interner::new();
    assert_eq!(process_notes(&n, &mut interner).unwrap_err(), CovError::Truncated);
}

/// A blocks record before any function announcement is a graph error.
#[test]
fn misplaced_record_is_graph_error() {
    let mut n = header(NOTES);
    record(&mut n, 2, &blocks_record(2));
    let mut interner = Interner::new();
    assert_eq!(process_notes(&n, &mut interner).unwrap_err(), CovError::Graph);
}

/// An arc naming an undeclared block is a graph error.
#[test]
fn out_of_range_arc_is_graph_error() {
    let mut n = header(NOTES);
    record(&mut n, 1, &function_record(1, 1, "f", "a.rs", 1));
    record(&mut n, 2, &blocks_record(2));
    record(&mut n, 3, &arcs_record(0, &[(9, 0)]));
    let mut interner = Interner::new();
    assert_eq!(process_notes(&n, &mut interner).unwrap_err(), CovError::Graph);
}

/// A function left without a blocks record is an unterminated declaration.
#[test]
fn function_without_blocks_is_graph_error() {
    let mut n = header(NOTES);
    record(&mut n, 1, &function_record(1, 1, "f", "a.rs", 1));
    let mut interner = Interner::new();
    assert_eq!(process_notes(&n, &mut interner).unwrap_err(), CovError::Graph);
}

/// A function whose arcs cannot all be resolved is excluded with an
/// inference warning, while others still aggregate.
#[test]
fn underconstrained_function_warns() {
    let mut n = header(NOTES);
    record(&mut n, 1, &function_record(1, 10, "f", "a.rs", 1));
    record(&mut n, 2, &blocks_record(2));
    record(&mut n, 3, &arcs_record(0, &[(1, 0)]));
    record(&mut n, 4, &lines_record(0, "a.rs", &[1]));
    let datas: Vec<Vec<u8>> = Vec::new();
    let (report, warnings) = report_session(&n, &datas, all_types(), "/ws").unwrap();
    assert_eq!(warnings.len(), 1);
    assert_eq!(warnings[0].kind, CovError::Underconstrained);
    assert_eq!(warnings[0].name, "f");
    assert!(report.files.is_empty());
}

/// A function absent from a data file simply gets no contribution.
#[test]
fn absent_function_zero_contribution() {
    let notes = simple_notes();
    let mut d = header(DATA);
    record(&mut d, 1, &data_function(77, 0));
    record(&mut d, 5, &counts_record(&[9]));
    let mut interner = Interner::new();
    let mut fs = process_notes(&notes, &mut interner).unwrap();
    let mut warnings = Vec::new();
    process_data(&mut fs, &d, &mut warnings).unwrap();
    assert!(warnings.is_empty());
    assert_eq!(fs[0].arcs[0].count, None);
}
