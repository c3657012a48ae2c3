//! Record reader: decodes a tagged binary stream (notes file or data file)
//! into a sequence of typed records.
//!
//! Stream layout. A *word* is four bytes in the stream's endianness. The
//! stream opens with a magic word (`MAGIC_NOTES` or `MAGIC_DATA`); the byte
//! order in which the magic is found fixes the endianness of everything that
//! follows. A version word comes next (supported: `MIN_VERSION` to
//! `MAX_VERSION`), then records. Each record is a tag word, a payload length
//! word (in bytes), and that many payload bytes. A string inside a payload is
//! a length word followed by that many raw bytes.
//!
//! Record payloads, by tag:
//! - `TAG_FUNCTION`, notes stream: ident word, checksum word, name string,
//!   source-path string, starting line word.
//! - `TAG_FUNCTION`, data stream: ident word, checksum word.
//! - `TAG_BLOCKS` (notes): block count word.
//! - `TAG_ARCS` (notes): source block word, then (destination word,
//!   flags word) pairs to the payload's end.
//! - `TAG_LINES` (notes): block word, then items to the payload's end: a
//!   non-zero word is a line number attributed to the current source path; a
//!   zero word is followed by a string that becomes the current path.
//! - `TAG_COUNTS` (data): execution counters, each a low word then a high
//!   word, in the on-tree arc order of the preceding function record.
//!
//! Errors: an unrecognized magic, a tag unknown for the stream's kind, or
//! trailing bytes after a record's last field give `Format`; a version out of
//! range gives `Version`; a stream or payload ending mid-field gives
//! `Truncated`. Decoding is a pure transform: on error the caller receives no
//! partial record list.

use crate::error::CovError;
use vstd::prelude::*;

verus! {

/// Magic word opening a notes stream.
pub const MAGIC_NOTES: u32 = 0x67636e6f;

/// Magic word opening a data stream.
pub const MAGIC_DATA: u32 = 0x67636461;

/// Lowest supported format version.
pub const MIN_VERSION: u32 = 1;

/// Highest supported format version.
pub const MAX_VERSION: u32 = 2;

/// Tag of a function-announcement record.
pub const TAG_FUNCTION: u32 = 1;

/// Tag of a block-count record (notes only).
pub const TAG_BLOCKS: u32 = 2;

/// Tag of an arc-list record (notes only).
pub const TAG_ARCS: u32 = 3;

/// Tag of a line-attribution record (notes only).
pub const TAG_LINES: u32 = 4;

/// Tag of a counter record (data only).
pub const TAG_COUNTS: u32 = 5;

/// Arc flag: the arc carries a literal counter.
pub const ARC_ON_TREE: u32 = 1;

/// Arc flag: not a real control edge (e.g. exception unwind).
pub const ARC_FAKE: u32 = 2;

/// Arc flag: fall-through edge.
pub const ARC_FALLTHROUGH: u32 = 4;

/// Which of the two stream kinds a byte source is expected to hold.
#[derive(Clone, Copy, Debug, PartialEq, Eq, Structural)]
pub enum StreamKind {
    /// Static control-flow description (functions, blocks, arcs, lines).
    Notes,
    /// Execution counters from one profiling run.
    Data,
}

/// One item of a line-attribution record.
#[derive(Clone, Debug)]
pub enum LineItem {
    /// Switches the current source path for the items that follow.
    SetPath(Vec<u8>),
    /// Attributes this line (of the current path) to the record's block.
    Line(u32),
}

/// Mathematical model of a `LineItem`.
pub enum LineItemView {
    SetPath(Seq<u8>),
    Line(u32),
}

impl View for LineItem {
    type V = LineItemView;

    open spec fn view(&self) -> LineItemView {
        match self {
            LineItem::SetPath(p) => LineItemView::SetPath(p@),
            LineItem::Line(l) => LineItemView::Line(*l),
        }
    }
}

/// One typed record of a notes or data stream.
#[derive(Clone, Debug)]
pub enum Record {
    /// Announces a function in a notes stream.
    Function { ident: u32, checksum: u32, name: Vec<u8>, path: Vec<u8>, line: u32 },
    /// Announces a function in a data stream.
    FunctionData { ident: u32, checksum: u32 },
    /// Allocates this many basic blocks for the current function.
    Blocks { count: u32 },
    /// Arcs out of `src`: `(destination, flags)` pairs.
    Arcs { src: u32, arcs: Vec<(u32, u32)> },
    /// Line attributions for one block.
    Lines { block: u32, items: Vec<LineItem> },
    /// Counter values for the preceding data-stream function record.
    Counts { values: Vec<u64> },
}

/// Mathematical model of a `Record`.
pub enum RecordView {
    Function { ident: u32, checksum: u32, name: Seq<u8>, path: Seq<u8>, line: u32 },
    FunctionData { ident: u32, checksum: u32 },
    Blocks { count: u32 },
    Arcs { src: u32, arcs: Seq<(u32, u32)> },
    Lines { block: u32, items: Seq<LineItemView> },
    Counts { values: Seq<u64> },
}

impl View for Record {
    type V = RecordView;

    open spec fn view(&self) -> RecordView {
        match self {
            Record::Function { ident, checksum, name, path, line } => RecordView::Function {
                ident: *ident,
                checksum: *checksum,
                name: name@,
                path: path@,
                line: *line,
            },
            Record::FunctionData { ident, checksum } => RecordView::FunctionData {
                ident: *ident,
                checksum: *checksum,
            },
            Record::Blocks { count } => RecordView::Blocks { count: *count },
            Record::Arcs { src, arcs } => RecordView::Arcs { src: *src, arcs: arcs@ },
            Record::Lines { block, items } => RecordView::Lines {
                block: *block,
                items: items@.map_values(|it: LineItem| it@),
            },
            Record::Counts { values } => RecordView::Counts { values: values@ },
        }
    }
}

/// The view of a whole record list.
pub open spec fn records_view(v: Seq<Record>) -> Seq<RecordView> {
    v.map_values(|r: Record| r@)
}

/// Value of the big-endian word at `i`.
pub open spec fn spec_word_be(b: Seq<u8>, i: int) -> int {
    (b[i] as int) * 0x1000000 + (b[i + 1] as int) * 0x10000 + (b[i + 2] as int) * 0x100 + (b[i
        + 3] as int)
}

/// Value of the little-endian word at `i`.
pub open spec fn spec_word_le(b: Seq<u8>, i: int) -> int {
    (b[i + 3] as int) * 0x1000000 + (b[i + 2] as int) * 0x10000 + (b[i + 1] as int) * 0x100 + (
    b[i] as int)
}

/// Value of the word at `i` in the given endianness.
pub open spec fn spec_word(b: Seq<u8>, i: int, big: bool) -> int {
    if big {
        spec_word_be(b, i)
    } else {
        spec_word_le(b, i)
    }
}

/// Value of the 64-bit counter at `i`: low word first, then high word.
pub open spec fn spec_u64_at(b: Seq<u8>, i: int, big: bool) -> int {
    spec_word(b, i, big) + spec_word(b, i + 4, big) * 0x100000000
}

/// The magic word that opens a stream of this kind.
pub open spec fn spec_magic(kind: StreamKind) -> int {
    match kind {
        StreamKind::Notes => MAGIC_NOTES as int,
        StreamKind::Data => MAGIC_DATA as int,
    }
}

/// Endianness detection: `Some(true)` for big-endian, `Some(false)` for
/// little-endian, `None` if the magic is unrecognized in either byte order.
pub open spec fn spec_endianness(b: Seq<u8>, kind: StreamKind) -> Option<bool> {
    if spec_word_be(b, 0) == spec_magic(kind) {
        Some(true)
    } else if spec_word_le(b, 0) == spec_magic(kind) {
        Some(false)
    } else {
        None
    }
}

/// Parses the string at `i` of a payload: `Ok((bytes, next position))`.
pub open spec fn spec_string_at(p: Seq<u8>, i: int, big: bool) -> Result<(Seq<u8>, int), CovError> {
    if i + 4 > p.len() {
        Err(CovError::Truncated)
    } else {
        let n = spec_word(p, i, big);
        if i + 4 + n > p.len() {
            Err(CovError::Truncated)
        } else {
            Ok((p.subrange(i + 4, i + 4 + n), i + 4 + n))
        }
    }
}

/// The `(destination, flags)` pairs from `i` to the payload's end.
/// Meaningful when `(p.len() - i)` is a multiple of eight.
pub open spec fn spec_arc_pairs(p: Seq<u8>, i: int, big: bool) -> Seq<(u32, u32)>
    decreases p.len() - i,
{
    if i >= 0 && i + 8 <= p.len() {
        seq![
            (spec_word(p, i, big) as u32, spec_word(p, i + 4, big) as u32),
        ] + spec_arc_pairs(p, i + 8, big)
    } else {
        Seq::empty()
    }
}

/// The counter values from `i` to the payload's end.
/// Meaningful when `(p.len() - i)` is a multiple of eight.
pub open spec fn spec_counts(p: Seq<u8>, i: int, big: bool) -> Seq<u64>
    decreases p.len() - i,
{
    if i >= 0 && i + 8 <= p.len() {
        seq![spec_u64_at(p, i, big) as u64] + spec_counts(p, i + 8, big)
    } else {
        Seq::empty()
    }
}

/// Parses the line items from `i` to the payload's end.
pub open spec fn spec_line_items(p: Seq<u8>, i: int, big: bool) -> Result<
    Seq<LineItemView>,
    CovError,
>
    decreases p.len() - i,
{
    if i >= p.len() {
        if i == p.len() {
            Ok(Seq::empty())
        } else {
            Err(CovError::Truncated)
        }
    } else if i + 4 > p.len() {
        Err(CovError::Truncated)
    } else {
        let v = spec_word(p, i, big);
        if v != 0 {
            match spec_line_items(p, i + 4, big) {
                Ok(rest) => Ok(seq![LineItemView::Line(v as u32)] + rest),
                Err(e) => Err(e),
            }
        } else {
            match spec_string_at(p, i + 4, big) {
                Ok((s, j)) => match spec_line_items(p, j, big) {
                    Ok(rest) => Ok(seq![LineItemView::SetPath(s)] + rest),
                    Err(e) => Err(e),
                },
                Err(e) => Err(e),
            }
        }
    }
}

/// Parses one record's payload, given its tag and the stream's kind.
pub open spec fn spec_record(tag: u32, p: Seq<u8>, kind: StreamKind, big: bool) -> Result<
    RecordView,
    CovError,
> {
    match kind {
        StreamKind::Notes => {
            if tag == TAG_FUNCTION {
                if p.len() < 8 {
                    Err(CovError::Truncated)
                } else {
                    match spec_string_at(p, 8, big) {
                        Ok((name, j)) => match spec_string_at(p, j, big) {
                            Ok((path, k)) => if k + 4 > p.len() {
                                Err(CovError::Truncated)
                            } else if k + 4 != p.len() {
                                Err(CovError::Format)
                            } else {
                                Ok(RecordView::Function {
                                    ident: spec_word(p, 0, big) as u32,
                                    checksum: spec_word(p, 4, big) as u32,
                                    name,
                                    path,
                                    line: spec_word(p, k, big) as u32,
                                })
                            },
                            Err(e) => Err(e),
                        },
                        Err(e) => Err(e),
                    }
                }
            } else if tag == TAG_BLOCKS {
                if p.len() < 4 {
                    Err(CovError::Truncated)
                } else if p.len() != 4 {
                    Err(CovError::Format)
                } else {
                    Ok(RecordView::Blocks { count: spec_word(p, 0, big) as u32 })
                }
            } else if tag == TAG_ARCS {
                if p.len() < 4 || (p.len() - 4) % 8 != 0 {
                    Err(CovError::Truncated)
                } else {
                    Ok(RecordView::Arcs {
                        src: spec_word(p, 0, big) as u32,
                        arcs: spec_arc_pairs(p, 4, big),
                    })
                }
            } else if tag == TAG_LINES {
                if p.len() < 4 {
                    Err(CovError::Truncated)
                } else {
                    match spec_line_items(p, 4, big) {
                        Ok(items) => Ok(RecordView::Lines {
                            block: spec_word(p, 0, big) as u32,
                            items,
                        }),
                        Err(e) => Err(e),
                    }
                }
            } else {
                Err(CovError::Format)
            }
        },
        StreamKind::Data => {
            if tag == TAG_FUNCTION {
                if p.len() < 8 {
                    Err(CovError::Truncated)
                } else if p.len() != 8 {
                    Err(CovError::Format)
                } else {
                    Ok(RecordView::FunctionData {
                        ident: spec_word(p, 0, big) as u32,
                        checksum: spec_word(p, 4, big) as u32,
                    })
                }
            } else if tag == TAG_COUNTS {
                if p.len() % 8 != 0 {
                    Err(CovError::Truncated)
                } else {
                    Ok(RecordView::Counts { values: spec_counts(p, 0, big) })
                }
            } else {
                Err(CovError::Format)
            }
        },
    }
}

/// Parses all records from `i` to the stream's end.
pub open spec fn spec_records(b: Seq<u8>, i: int, kind: StreamKind, big: bool) -> Result<
    Seq<RecordView>,
    CovError,
>
    decreases b.len() - i,
{
    if i >= b.len() {
        if i == b.len() {
            Ok(Seq::empty())
        } else {
            Err(CovError::Truncated)
        }
    } else if i + 8 > b.len() {
        Err(CovError::Truncated)
    } else {
        let tag = spec_word(b, i, big) as u32;
        let len = spec_word(b, i + 4, big);
        if i + 8 + len > b.len() {
            Err(CovError::Truncated)
        } else {
            match spec_record(tag, b.subrange(i + 8, i + 8 + len), kind, big) {
                Ok(head) => match spec_records(b, i + 8 + len, kind, big) {
                    Ok(rest) => Ok(seq![head] + rest),
                    Err(e) => Err(e),
                },
                Err(e) => Err(e),
            }
        }
    }
}

/// What decoding a whole byte stream of the given kind yields.
pub open spec fn spec_decode(b: Seq<u8>, kind: StreamKind) -> Result<Seq<RecordView>, CovError> {
    if b.len() < 8 {
        Err(CovError::Truncated)
    } else {
        match spec_endianness(b, kind) {
            None => Err(CovError::Format),
            Some(big) => {
                let v = spec_word(b, 4, big);
                if v < MIN_VERSION || v > MAX_VERSION {
                    Err(CovError::Version)
                } else {
                    spec_records(b, 8, kind, big)
                }
            },
        }
    }
}

/// Reads the word at `i` in the given endianness.
pub fn read_word(b: &[u8], i: usize, big: bool) -> (r: u32)
    requires
        i + 4 <= b@.len(),
    ensures
        r as int == spec_word(b@, i as int, big),
{
    let b0 = b[i] as u32;
    let b1 = b[i + 1] as u32;
    let b2 = b[i + 2] as u32;
    let b3 = b[i + 3] as u32;
    if big {
        b0 * 0x1000000 + b1 * 0x10000 + b2 * 0x100 + b3
    } else {
        b3 * 0x1000000 + b2 * 0x10000 + b1 * 0x100 + b0
    }
}

/// Reads the 64-bit counter at `i`: low word, then high word.
pub fn read_u64_at(b: &[u8], i: usize, big: bool) -> (r: u64)
    requires
        i + 8 <= b@.len(),
    ensures
        r as int == spec_u64_at(b@, i as int, big),
{
    let m = b.len();
    assert(i + 8 <= m);
    let lo = read_word(b, i, big) as u64;
    let hi = read_word(b, i + 4, big) as u64;
    lo + hi * 0x100000000
}

/// Reads the string at `i` of a payload; returns its bytes and the position
/// after it.
pub fn read_string(p: &[u8], i: usize, big: bool) -> (r: Result<(Vec<u8>, usize), CovError>)
    ensures
        match r {
            Ok((s, j)) => spec_string_at(p@, i as int, big) == Ok::<_, CovError>((s@, j as int))
                && i < j <= p@.len(),
            Err(e) => spec_string_at(p@, i as int, big) == Err::<(Seq<u8>, int), _>(e),
        },
{
    let m = p.len();
    if i > m || m - i < 4 {
        return Err(CovError::Truncated);
    }
    let n = read_word(p, i, big) as usize;
    if m - (i + 4) < n {
        return Err(CovError::Truncated);
    }
    let s = vstd::slice::slice_to_vec(&p[i + 4..i + 4 + n]);
    Ok((s, i + 4 + n))
}

/// Prefixes `pre` to the records of `r`, keeping an error as it is.
pub open spec fn prepend_records(pre: Seq<RecordView>, r: Result<Seq<RecordView>, CovError>) -> Result<
    Seq<RecordView>,
    CovError,
> {
    match r {
        Ok(s) => Ok(pre + s),
        Err(e) => Err(e),
    }
}

/// Prefixes `pre` to the line items of `r`, keeping an error as it is.
pub open spec fn prepend_items(pre: Seq<LineItemView>, r: Result<Seq<LineItemView>, CovError>) -> Result<
    Seq<LineItemView>,
    CovError,
> {
    match r {
        Ok(s) => Ok(pre + s),
        Err(e) => Err(e),
    }
}

/// Reads the `(destination, flags)` pairs of an arc record's payload.
fn parse_arc_pairs(p: &[u8], big: bool) -> (v: Vec<(u32, u32)>)
    requires
        p@.len() >= 4,
        (p@.len() - 4) % 8 == 0,
    ensures
        v@ == spec_arc_pairs(p@, 4, big),
{
    let m = p.len();
    let mut v: Vec<(u32, u32)> = Vec::new();
    let mut i: usize = 4;
    while i < m
        invariant
            m == p@.len(),
            4 <= i <= m,
            (m - i) % 8 == 0,
            spec_arc_pairs(p@, 4, big) =~= v@ + spec_arc_pairs(p@, i as int, big),
        decreases m - i,
    {
        assert(i + 8 <= m);
        let dst = read_word(p, i, big);
        let flags = read_word(p, i + 4, big);
        let ghost prev = v@;
        v.push((dst, flags));
        proof {
            assert(spec_arc_pairs(p@, i as int, big) =~= seq![(dst, flags)] + spec_arc_pairs(
                p@,
                i as int + 8,
                big,
            ));
            assert(prev + spec_arc_pairs(p@, i as int, big) =~= v@ + spec_arc_pairs(
                p@,
                i as int + 8,
                big,
            ));
        }
        i += 8;
    }
    proof {
        assert(spec_arc_pairs(p@, i as int, big) =~= Seq::<(u32, u32)>::empty());
        assert(v@ + Seq::<(u32, u32)>::empty() =~= v@);
    }
    v
}

/// Reads the 64-bit counter values of a counts record's payload.
fn parse_counts(p: &[u8], big: bool) -> (v: Vec<u64>)
    requires
        p@.len() % 8 == 0,
    ensures
        v@ == spec_counts(p@, 0, big),
{
    let m = p.len();
    let mut v: Vec<u64> = Vec::new();
    let mut i: usize = 0;
    while i < m
        invariant
            m == p@.len(),
            0 <= i <= m,
            (m - i) % 8 == 0,
            spec_counts(p@, 0, big) =~= v@ + spec_counts(p@, i as int, big),
        decreases m - i,
    {
        assert(i + 8 <= m);
        let c = read_u64_at(p, i, big);
        let ghost prev = v@;
        v.push(c);
        proof {
            assert(spec_counts(p@, i as int, big) =~= seq![c] + spec_counts(p@, i as int + 8, big));
            assert(prev + spec_counts(p@, i as int, big) =~= v@ + spec_counts(p@, i as int + 8, big));
        }
        i += 8;
    }
    proof {
        assert(spec_counts(p@, i as int, big) =~= Seq::<u64>::empty());
        assert(v@ + Seq::<u64>::empty() =~= v@);
    }
    v
}

/// Reads the items of a line record's payload, from position 4 to its end.
fn parse_line_items(p: &[u8], big: bool) -> (r: Result<Vec<LineItem>, CovError>)
    requires
        p@.len() >= 4,
    ensures
        match r {
            Ok(v) => spec_line_items(p@, 4, big) == Ok::<_, CovError>(
                v@.map_values(|it: LineItem| it@),
            ),
            Err(e) => spec_line_items(p@, 4, big) == Err::<Seq<LineItemView>, _>(e),
        },
{
    let m = p.len();
    let mut v: Vec<LineItem> = Vec::new();
    let mut i: usize = 4;
    while i < m
        invariant
            m == p@.len(),
            4 <= i <= m,
            spec_line_items(p@, 4, big) == prepend_items(
                v@.map_values(|it: LineItem| it@),
                spec_line_items(p@, i as int, big),
            ),
        decreases m - i,
    {
        if m - i < 4 {
            return Err(CovError::Truncated);
        }
        let w = read_word(p, i, big);
        let ghost prev = v@.map_values(|it: LineItem| it@);
        if w != 0 {
            v.push(LineItem::Line(w));
            proof {
                let cur = v@.map_values(|it: LineItem| it@);
                assert(cur =~= prev.push(LineItemView::Line(w)));
                match spec_line_items(p@, i as int + 4, big) {
                    Ok(rest) => {
                        assert(prev + (seq![LineItemView::Line(w)] + rest) =~= cur + rest);
                    },
                    Err(_) => {},
                }
            }
            i += 4;
        } else {
            match read_string(p, i + 4, big) {
                Ok((s, j)) => {
                    let ghost sv = s@;
                    v.push(LineItem::SetPath(s));
                    proof {
                        let cur = v@.map_values(|it: LineItem| it@);
                        assert(cur =~= prev.push(LineItemView::SetPath(sv)));
                        match spec_line_items(p@, j as int, big) {
                            Ok(rest) => {
                                assert(prev + (seq![LineItemView::SetPath(sv)] + rest) =~= cur
                                    + rest);
                            },
                            Err(_) => {},
                        }
                    }
                    i = j;
                },
                Err(e) => {
                    return Err(e);
                },
            }
        }
    }
    proof {
        assert(spec_line_items(p@, i as int, big) == Ok::<Seq<LineItemView>, CovError>(
            Seq::empty(),
        ));
        let pre = v@.map_values(|it: LineItem| it@);
        assert(pre + Seq::<LineItemView>::empty() =~= pre);
    }
    Ok(v)
}

/// Parses one record's payload, given its tag and the stream's kind.
fn parse_record(tag: u32, p: &[u8], kind: StreamKind, big: bool) -> (r: Result<Record, CovError>)
    ensures
        match r {
            Ok(rec) => spec_record(tag, p@, kind, big) == Ok::<_, CovError>(rec@),
            Err(e) => spec_record(tag, p@, kind, big) == Err::<RecordView, _>(e),
        },
{
    let m = p.len();
    match kind {
        StreamKind::Notes => {
            if tag == TAG_FUNCTION {
                if m < 8 {
                    return Err(CovError::Truncated);
                }
                let ident = read_word(p, 0, big);
                let checksum = read_word(p, 4, big);
                let (name, j) = match read_string(p, 8, big) {
                    Ok(x) => x,
                    Err(e) => {
                        return Err(e);
                    },
                };
                let (path, k) = match read_string(p, j, big) {
                    Ok(x) => x,
                    Err(e) => {
                        return Err(e);
                    },
                };
                if m - k < 4 {
                    return Err(CovError::Truncated);
                }
                if k + 4 != m {
                    return Err(CovError::Format);
                }
                let line = read_word(p, k, big);
                Ok(Record::Function { ident, checksum, name, path, line })
            } else if tag == TAG_BLOCKS {
                if m < 4 {
                    return Err(CovError::Truncated);
                }
                if m != 4 {
                    return Err(CovError::Format);
                }
                Ok(Record::Blocks { count: read_word(p, 0, big) })
            } else if tag == TAG_ARCS {
                if m < 4 || (m - 4) % 8 != 0 {
                    return Err(CovError::Truncated);
                }
                let src = read_word(p, 0, big);
                let arcs = parse_arc_pairs(p, big);
                Ok(Record::Arcs { src, arcs })
            } else if tag == TAG_LINES {
                if m < 4 {
                    return Err(CovError::Truncated);
                }
                let block = read_word(p, 0, big);
                match parse_line_items(p, big) {
                    Ok(items) => Ok(Record::Lines { block, items }),
                    Err(e) => Err(e),
                }
            } else {
                Err(CovError::Format)
            }
        },
        StreamKind::Data => {
            if tag == TAG_FUNCTION {
                if m < 8 {
                    return Err(CovError::Truncated);
                }
                if m != 8 {
                    return Err(CovError::Format);
                }
                let ident = read_word(p, 0, big);
                let checksum = read_word(p, 4, big);
                Ok(Record::FunctionData { ident, checksum })
            } else if tag == TAG_COUNTS {
                if m % 8 != 0 {
                    return Err(CovError::Truncated);
                }
                let values = parse_counts(p, big);
                Ok(Record::Counts { values })
            } else {
                Err(CovError::Format)
            }
        },
    }
}

/// Decodes a whole byte stream of the given kind into its typed records.
///
/// Endianness is detected from the magic token's byte order and applied to
/// the rest of the stream. On any error the caller receives no records.
#[verifier::rlimit(50)]
pub fn decode_stream(bytes: &[u8], kind: StreamKind) -> (r: Result<Vec<Record>, CovError>)
    ensures
        match r {
            Ok(v) => spec_decode(bytes@, kind) == Ok::<_, CovError>(records_view(v@)),
            Err(e) => spec_decode(bytes@, kind) == Err::<Seq<RecordView>, _>(e),
        },
{
    let n = bytes.len();
    if n < 8 {
        return Err(CovError::Truncated);
    }
    let magic: u32 = match kind {
        StreamKind::Notes => MAGIC_NOTES,
        StreamKind::Data => MAGIC_DATA,
    };
    let w_be = read_word(bytes, 0, true);
    let big: bool = if w_be == magic {
        true
    } else {
        let w_le = read_word(bytes, 0, false);
        if w_le == magic {
            false
        } else {
            return Err(CovError::Format);
        }
    };
    assert(spec_endianness(bytes@, kind) == Some(big));
    let version = read_word(bytes, 4, big);
    if version < MIN_VERSION || version > MAX_VERSION {
        return Err(CovError::Version);
    }
    let mut recs: Vec<Record> = Vec::new();
    let mut pos: usize = 8;
    loop
        invariant
            n == bytes@.len(),
            8 <= pos <= n,
            spec_decode(bytes@, kind) == spec_records(bytes@, 8, kind, big),
            spec_records(bytes@, 8, kind, big) == prepend_records(
                records_view(recs@),
                spec_records(bytes@, pos as int, kind, big),
            ),
        decreases n - pos,
    {
        if pos == n {
            proof {
                assert(spec_records(bytes@, pos as int, kind, big) == Ok::<
                    Seq<RecordView>,
                    CovError,
                >(Seq::empty()));
                assert(records_view(recs@) + Seq::<RecordView>::empty() =~= records_view(recs@));
            }
            return Ok(recs);
        }
        if n - pos < 8 {
            return Err(CovError::Truncated);
        }
        let tag = read_word(bytes, pos, big);
        let len = read_word(bytes, pos + 4, big) as usize;
        if n - (pos + 8) < len {
            return Err(CovError::Truncated);
        }
        let payload = &bytes[pos + 8..pos + 8 + len];
        match parse_record(tag, payload, kind, big) {
            Ok(rec) => {
                let ghost prev = records_view(recs@);
                let ghost recv = rec@;
                recs.push(rec);
                proof {
                    let cur = records_view(recs@);
                    assert(cur =~= prev.push(recv));
                    match spec_records(bytes@, pos as int + 8 + len as int, kind, big) {
                        Ok(rest) => {
                            assert(prev + (seq![recv] + rest) =~= cur + rest);
                        },
                        Err(_) => {},
                    }
                }
                pos = pos + 8 + len;
            },
            Err(e) => {
                return Err(e);
            },
        }
    }
}

} // verus!
