//! Source path categorization.
//!
//! Coverage notes record the source path where a function and line of code
//! is found. Due to inlining and static linking, functions from the standard
//! libraries and external crates are counted too, which clutters reports
//! with code the user did not write. This module analyzes a source path and
//! determines its category, so that uninteresting categories can be hidden.
//!
//! Positions returned as prefix lengths are counted in characters.

use vstd::prelude::*;
use vstd::string::StrSliceExecFns;
use vstd::string::StringExecFns;

verus! {

/// The path separator used when matching and building path prefixes.
pub const PATH_SEPARATOR: char = '/';

/// The type of source path, as a set of category bits.
#[derive(Clone, Copy, Debug, PartialEq, Eq, Structural)]
pub struct SourceType {
    /// Union of the category constants below.
    pub bits: u8,
}

/// The error raised when a source type name is not recognized.
#[derive(Clone, Copy, Debug, PartialEq, Eq, Structural)]
pub struct UnsupportedSourceTypeName;

/// Category bit: the path is in the local workspace.
pub const LOCAL: u8 = 1;

/// Category bit: the "path" is part of a macro declaration.
pub const MACROS: u8 = 2;

/// Category bit: unknown kind of path.
pub const UNKNOWN: u8 = 4;

/// Category bit: the path is of external crates.
pub const CRATES: u8 = 8;

/// Category bit: the path is in the Rust standard libraries.
pub const RUSTSRC: u8 = 16;

/// The default set of interesting source paths: local, macros and unknown.
pub const DEFAULT: u8 = 7;

/// Every category.
pub const ALL: u8 = 31;

impl SourceType {
    /// The empty set of categories.
    pub fn empty() -> (r: SourceType)
        ensures
            r.bits == 0,
    {
        SourceType { bits: 0 }
    }

    /// The union of two category sets.
    pub fn union(self, other: SourceType) -> (r: SourceType)
        ensures
            r.bits == (self.bits | other.bits),
    {
        SourceType { bits: self.bits | other.bits }
    }

    /// Whether every category of `other` is in `self`.
    pub fn contains(self, other: SourceType) -> (r: bool)
        ensures
            r == ((self.bits & other.bits) == other.bits),
    {
        (self.bits & other.bits) == other.bits
    }

    /// Parses one source type name.
    pub fn from_str(s: &str) -> (r: Result<SourceType, UnsupportedSourceTypeName>)
        ensures
            r == spec_from_str(s@),
    {
        if str_eq(s, "local") {
            Ok(SourceType { bits: LOCAL })
        } else if str_eq(s, "macros") {
            Ok(SourceType { bits: MACROS })
        } else if str_eq(s, "rustsrc") {
            Ok(SourceType { bits: RUSTSRC })
        } else if str_eq(s, "crates") {
            Ok(SourceType { bits: CRATES })
        } else if str_eq(s, "unknown") {
            Ok(SourceType { bits: UNKNOWN })
        } else if str_eq(s, "all") {
            Ok(SourceType { bits: ALL })
        } else {
            Err(UnsupportedSourceTypeName)
        }
    }

    /// Parses a list of source type names and returns the union of all
    /// category bits; the first unrecognized name is the error.
    pub fn from_multi_str(strings: &Vec<String>) -> (r: Result<
        SourceType,
        UnsupportedSourceTypeName,
    >)
        ensures
            r == spec_from_multi(strings@.map_values(|s: String| s@), 0),
    {
        let ghost ss = strings@.map_values(|s: String| s@);
        let n = strings.len();
        let mut res = SourceType::empty();
        let mut i: usize = 0;
        proof {
            assert(ss.skip(0) =~= ss);
        }
        while i < n
            invariant
                0 <= i <= n,
                n == strings@.len(),
                ss == strings@.map_values(|s: String| s@),
                spec_from_multi(ss, 0) == spec_from_multi(ss.skip(i as int), res.bits),
            decreases n - i,
        {
            proof {
                assert(ss.skip(i as int)[0] == ss[i as int]);
                assert(ss.skip(i as int).drop_first() =~= ss.skip(i as int + 1));
                assert(ss[i as int] == strings@[i as int]@);
            }
            match SourceType::from_str(strings[i].as_str()) {
                Ok(t) => {
                    res = res.union(t);
                },
                Err(e) => {
                    return Err(e);
                },
            }
            i += 1;
        }
        proof {
            assert(ss.skip(n as int) =~= Seq::<Seq<char>>::empty());
        }
        Ok(res)
    }

    /// The display prefix that replaces a stripped path prefix of this
    /// category.
    pub fn prefix(self) -> (r: &'static str)
        ensures
            r@ == spec_prefix(self),
    {
        if self.bits == LOCAL {
            "."
        } else if self.bits == RUSTSRC {
            "\u{ab}rust\u{bb}"
        } else if self.bits == CRATES {
            "\u{ab}crates\u{bb}"
        } else {
            ""
        }
    }
}

/// What parsing one source type name yields.
pub open spec fn spec_from_str(s: Seq<char>) -> Result<SourceType, UnsupportedSourceTypeName> {
    if s == "local"@ {
        Ok(SourceType { bits: LOCAL })
    } else if s == "macros"@ {
        Ok(SourceType { bits: MACROS })
    } else if s == "rustsrc"@ {
        Ok(SourceType { bits: RUSTSRC })
    } else if s == "crates"@ {
        Ok(SourceType { bits: CRATES })
    } else if s == "unknown"@ {
        Ok(SourceType { bits: UNKNOWN })
    } else if s == "all"@ {
        Ok(SourceType { bits: ALL })
    } else {
        Err(UnsupportedSourceTypeName)
    }
}

/// What parsing a list of names yields, folding the union from `acc`.
pub open spec fn spec_from_multi(ss: Seq<Seq<char>>, acc: u8) -> Result<
    SourceType,
    UnsupportedSourceTypeName,
>
    decreases ss.len(),
{
    if ss.len() == 0 {
        Ok(SourceType { bits: acc })
    } else {
        match spec_from_str(ss[0]) {
            Ok(t) => spec_from_multi(ss.drop_first(), acc | t.bits),
            Err(e) => Err(e),
        }
    }
}

/// The display prefix of a category.
pub open spec fn spec_prefix(t: SourceType) -> Seq<char> {
    if t.bits == LOCAL {
        "."@
    } else if t.bits == RUSTSRC {
        "\u{ab}rust\u{bb}"@
    } else if t.bits == CRATES {
        "\u{ab}crates\u{bb}"@
    } else {
        ""@
    }
}

/// `s` begins with `p`.
pub open spec fn starts_with_spec(s: Seq<char>, p: Seq<char>) -> bool {
    p.len() <= s.len() && s.subrange(0, p.len() as int) == p
}

/// `s` ends with `p`.
pub open spec fn ends_with_spec(s: Seq<char>, p: Seq<char>) -> bool {
    p.len() <= s.len() && s.subrange(s.len() - p.len(), s.len() as int) == p
}

/// `i` is the first position of `c` in `s`.
pub open spec fn is_first_char(s: Seq<char>, c: char, i: int) -> bool {
    &&& 0 <= i < s.len()
    &&& s[i] == c
    &&& forall|j: int| 0 <= j < i ==> s[j] != c
}

/// The first position of `c` in `s`, if any.
pub open spec fn find_char_spec(s: Seq<char>, c: char) -> Option<int> {
    if exists|i: int| is_first_char(s, c, i) {
        Some(choose|i: int| is_first_char(s, c, i))
    } else {
        None
    }
}

/// Compares two strings for equality of their characters.
pub fn str_eq(a: &str, b: &str) -> (r: bool)
    ensures
        r == (a@ == b@),
{
    let la = a.unicode_len();
    let lb = b.unicode_len();
    if la != lb {
        assert(a@ != b@) by {
            assert(a@.len() != b@.len());
        }
        return false;
    }
    let mut i: usize = 0;
    while i < la
        invariant
            0 <= i <= la,
            la == a@.len(),
            la == b@.len(),
            forall|k: int| 0 <= k < i ==> a@[k] == b@[k],
        decreases la - i,
    {
        if a.get_char(i) != b.get_char(i) {
            return false;
        }
        i += 1;
    }
    proof {
        assert(a@ =~= b@);
    }
    true
}

/// Whether `s` begins with `p`.
pub fn str_starts_with(s: &str, p: &str) -> (r: bool)
    ensures
        r == starts_with_spec(s@, p@),
{
    let ls = s.unicode_len();
    let lp = p.unicode_len();
    if lp > ls {
        return false;
    }
    let mut i: usize = 0;
    while i < lp
        invariant
            0 <= i <= lp,
            ls == s@.len(),
            lp == p@.len(),
            lp <= ls,
            forall|k: int| 0 <= k < i ==> s@[k] == p@[k],
        decreases lp - i,
    {
        if s.get_char(i) != p.get_char(i) {
            assert(!starts_with_spec(s@, p@)) by {
                if s@.subrange(0, p@.len() as int) == p@ {
                    assert(s@.subrange(0, p@.len() as int)[i as int] == s@[i as int]);
                }
            }
            return false;
        }
        i += 1;
    }
    proof {
        assert(s@.subrange(0, p@.len() as int) =~= p@);
    }
    true
}

/// Whether `s` ends with `p`.
pub fn str_ends_with(s: &str, p: &str) -> (r: bool)
    ensures
        r == ends_with_spec(s@, p@),
{
    let ls = s.unicode_len();
    let lp = p.unicode_len();
    if lp > ls {
        return false;
    }
    let off = ls - lp;
    let mut i: usize = 0;
    while i < lp
        invariant
            0 <= i <= lp,
            ls == s@.len(),
            lp == p@.len(),
            lp <= ls,
            off == ls - lp,
            forall|k: int| 0 <= k < i ==> s@[off + k] == p@[k],
        decreases lp - i,
    {
        if s.get_char(off + i) != p.get_char(i) {
            assert(!ends_with_spec(s@, p@)) by {
                if s@.subrange(s@.len() - p@.len(), s@.len() as int) == p@ {
                    assert(s@.subrange(s@.len() - p@.len(), s@.len() as int)[i as int] == s@[off
                        + i]);
                }
            }
            return false;
        }
        i += 1;
    }
    proof {
        assert(s@.subrange(s@.len() - p@.len(), s@.len() as int) =~= p@);
    }
    true
}

/// Finds the first occurrence of `c` in `s` at or after position `from`,
/// returned relative to `from`.
pub fn find_char_from(s: &str, from: usize, c: char) -> (r: Option<usize>)
    requires
        from <= s@.len(),
    ensures
        match r {
            Some(i) => find_char_spec(s@.skip(from as int), c) == Some(i as int),
            None => find_char_spec(s@.skip(from as int), c) is None,
        },
{
    let ghost rest = s@.skip(from as int);
    let ls = s.unicode_len();
    let mut i: usize = from;
    while i < ls
        invariant
            from <= i <= ls,
            ls == s@.len(),
            rest == s@.skip(from as int),
            forall|k: int| 0 <= k < i - from ==> rest[k] != c,
        decreases ls - i,
    {
        proof {
            assert(rest[i - from] == s@[i as int]);
        }
        if s.get_char(i) == c {
            proof {
                assert(is_first_char(rest, c, i as int - from as int));
                let j = choose|j: int| is_first_char(rest, c, j);
                assert(is_first_char(rest, c, j));
                assert(j == i as int - from as int);
            }
            return Some(i - from);
        }
        i += 1;
    }
    proof {
        if exists|j: int| is_first_char(rest, c, j) {
            let j = choose|j: int| is_first_char(rest, c, j);
            assert(rest[j] != c);
        }
    }
    None
}

/// What classifying a path yields: its category and the number of leading
/// characters to strip for display.
pub open spec fn spec_identify(
    path: Seq<char>,
    crates_path: Seq<char>,
    registry: Option<Seq<char>>,
) -> (SourceType, int) {
    if starts_with_spec(path, crates_path) {
        (SourceType { bits: LOCAL }, crates_path.len() as int)
    } else if registry is Some && starts_with_spec(path, registry.unwrap()) {
        let rl = registry.unwrap().len() as int;
        match find_char_spec(path.skip(rl), PATH_SEPARATOR) {
            Some(i) => (SourceType { bits: CRATES }, rl + i + 1),
            None => (SourceType { bits: CRATES }, rl),
        }
    } else if path.len() > 0 && path[0] == '<' && ends_with_spec(path, " macros>"@) {
        (SourceType { bits: MACROS }, 0)
    } else if starts_with_spec(path, "/Users/travis/build/rust-lang/rust/"@) {
        (SourceType { bits: RUSTSRC }, "/Users/travis/build/rust-lang/rust/"@.len() as int)
    } else if starts_with_spec(path, "/checkout/"@) {
        (SourceType { bits: RUSTSRC }, "/checkout/"@.len() as int)
    } else if starts_with_spec(path, "C:\\projects\\rust\\"@) {
        (SourceType { bits: RUSTSRC }, "C:\\projects\\rust\\"@.len() as int)
    } else {
        (SourceType { bits: UNKNOWN }, 0)
    }
}

/// Analyzes a source path against an explicit registry prefix and obtains
/// its category and the prefix length (in characters) to strip for display.
///
/// A path starting with `crates_path` is local; one under the registry
/// prefix belongs to external crates, stripped through the crate's own
/// directory name; a `<... macros>` pseudo-path is a macro declaration;
/// the known continuous-integration source trees are the standard library;
/// anything else is unknown.
pub fn identify_source_path_with(path: &str, crates_path: &str, registry_path: Option<&str>) -> (r:
    (SourceType, usize))
    ensures
        (r.0, r.1 as int) == spec_identify(
            path@,
            crates_path@,
            match registry_path {
                Some(g) => Some(g@),
                None => None,
            },
        ),
{
    if str_starts_with(path, crates_path) {
        let l = crates_path.unicode_len();
        return (SourceType { bits: LOCAL }, l);
    }
    match registry_path {
        Some(reg) => {
            if str_starts_with(path, reg) {
                let lp = path.unicode_len();
                let rl = reg.unicode_len();
                assert(rl <= path@.len());
                match find_char_from(path, rl, PATH_SEPARATOR) {
                    Some(i) => {
                        proof {
                            let rest = path@.skip(rl as int);
                            let j = choose|j: int| is_first_char(rest, PATH_SEPARATOR, j);
                            assert(is_first_char(rest, PATH_SEPARATOR, j));
                            assert(j == i as int);
                            assert(i < rest.len());
                        }
                        return (SourceType { bits: CRATES }, rl + i + 1);
                    },
                    None => {
                        return (SourceType { bits: CRATES }, rl);
                    },
                }
            }
        },
        None => {},
    }
    let ls = path.unicode_len();
    if ls > 0 && path.get_char(0) == '<' && str_ends_with(path, " macros>") {
        return (SourceType { bits: MACROS }, 0);
    }
    if str_starts_with(path, "/Users/travis/build/rust-lang/rust/") {
        let l = "/Users/travis/build/rust-lang/rust/".unicode_len();
        return (SourceType { bits: RUSTSRC }, l);
    }
    if str_starts_with(path, "/checkout/") {
        let l = "/checkout/".unicode_len();
        return (SourceType { bits: RUSTSRC }, l);
    }
    if str_starts_with(path, "C:\\projects\\rust\\") {
        let l = "C:\\projects\\rust\\".unicode_len();
        return (SourceType { bits: RUSTSRC }, l);
    }
    (SourceType { bits: UNKNOWN }, 0)
}

/// Relies on `home::cargo_home` to locate the user's cargo directory. The
/// result depends on the process environment, so nothing is promised of it.
#[verifier::external_body]
fn cargo_home_string() -> (r: Option<String>) {
    match home::cargo_home() {
        Ok(p) => Some(p.to_string_lossy().into_owned()),
        Err(_) => None,
    }
}

/// The path to the local cargo registry sources, `$CARGO_HOME/registry/src/`
/// with a trailing separator, if the cargo directory can be located.
pub fn registry_src_path() -> (r: Option<String>)
    ensures
        match r {
            Some(p) => exists|h: Seq<char>| p@ == h + "/registry/src/"@,
            None => true,
        },
{
    match cargo_home_string() {
        Some(h) => {
            let p = h.concat("/registry/src/");
            proof {
                assert(p@ == h@ + "/registry/src/"@);
            }
            Some(p)
        },
        None => None,
    }
}

/// The shapes a registry prefix can take: absent, or some cargo directory
/// extended with `/registry/src/`.
pub open spec fn registry_shaped(reg: Option<Seq<char>>) -> bool {
    match reg {
        None => true,
        Some(s) => exists|h: Seq<char>| s == h + "/registry/src/"@,
    }
}

/// Analyzes a source path and obtains its category and display prefix
/// length, locating the cargo registry from the environment. The result is
/// `spec_identify` for whatever registry prefix the environment yields,
/// which is absent or ends in `/registry/src/`.
pub fn identify_source_path(path: &str, crates_path: &str) -> (r: (SourceType, usize))
    ensures
        exists|reg: Option<Seq<char>>|
            (r.0, r.1 as int) == #[trigger] spec_identify(path@, crates_path@, reg)
                && registry_shaped(reg),
{
    let reg = registry_src_path();
    let r = match &reg {
        Some(g) => identify_source_path_with(path, crates_path, Some(g.as_str())),
        None => identify_source_path_with(path, crates_path, None),
    };
    proof {
        match reg {
            Some(g) => {
                assert((r.0, r.1 as int) == spec_identify(path@, crates_path@, Some(g@)));
            },
            None => {
                assert((r.0, r.1 as int) == spec_identify(
                    path@,
                    crates_path@,
                    None::<Seq<char>>,
                ));
            },
        }
    }
    r
}

} // verus!
