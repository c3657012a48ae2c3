//! Command-line argument logic: partitioning special arguments from the
//! rest, deciding whether a compiler invocation targets a local crate, and
//! assembling the report configuration from parsed argument values.
//!
//! The decisions here are pure functions from plain strings; reading the
//! actual command line and driving a parser stays outside the library.
//! Paths are handled as strings with `/` as the separator, and positions
//! are counted in characters.

use crate::sourcepath::{
    find_char_spec, is_first_char, spec_from_multi, starts_with_spec, str_eq, str_starts_with,
    SourceType, DEFAULT, PATH_SEPARATOR,
};
use vstd::prelude::*;
use vstd::string::StrSliceExecFns;
use vstd::string::StringExecFns;

verus! {

/// One of the special arguments that every subcommand must know to set up
/// the coverage environment.
#[derive(Clone, Copy, Debug, PartialEq, Eq, Structural)]
pub enum SpecialKey {
    /// `--manifest-path`
    ManifestPath,
    /// `--target`
    Target,
    /// `--profiler`
    Profiler,
}

/// Map of special arguments: the value last seen for each special key.
pub struct SpecialMap {
    /// Value of `--manifest-path`, if seen.
    pub manifest_path: Option<String>,
    /// Value of `--target`, if seen.
    pub target: Option<String>,
    /// Value of `--profiler`, if seen.
    pub profiler: Option<String>,
}

/// Mathematical model of a `SpecialMap`.
#[verifier::ext_equal]
pub struct SpecialView {
    pub manifest_path: Option<Seq<char>>,
    pub target: Option<Seq<char>>,
    pub profiler: Option<Seq<char>>,
}

impl View for SpecialMap {
    type V = SpecialView;

    open spec fn view(&self) -> SpecialView {
        SpecialView {
            manifest_path: match &self.manifest_path {
                Some(s) => Some(s@),
                None => None,
            },
            target: match &self.target {
                Some(s) => Some(s@),
                None => None,
            },
            profiler: match &self.profiler {
                Some(s) => Some(s@),
                None => None,
            },
        }
    }
}

/// The views of a list of strings.
pub open spec fn strings_view(v: Seq<String>) -> Seq<Seq<char>> {
    v.map_values(|s: String| s@)
}

/// The map with one key's value replaced.
pub open spec fn spec_insert(sp: SpecialView, k: SpecialKey, v: Seq<char>) -> SpecialView {
    match k {
        SpecialKey::ManifestPath => SpecialView { manifest_path: Some(v), ..sp },
        SpecialKey::Target => SpecialView { target: Some(v), ..sp },
        SpecialKey::Profiler => SpecialView { profiler: Some(v), ..sp },
    }
}

/// The special key a bare argument name (without `--`) denotes, if any.
pub open spec fn spec_special_of(s: Seq<char>) -> Option<SpecialKey> {
    if s == "manifest-path"@ {
        Some(SpecialKey::ManifestPath)
    } else if s == "target"@ {
        Some(SpecialKey::Target)
    } else if s == "profiler"@ {
        Some(SpecialKey::Profiler)
    } else {
        None
    }
}

impl SpecialMap {
    /// An empty map.
    pub fn new() -> (r: SpecialMap)
        ensures
            r@ == (SpecialView { manifest_path: None, target: None, profiler: None }),
    {
        SpecialMap { manifest_path: None, target: None, profiler: None }
    }

    /// Records a value for a special key, replacing any earlier one.
    pub fn insert(&mut self, key: SpecialKey, value: String)
        ensures
            final(self)@ == spec_insert(old(self)@, key, value@),
    {
        match key {
            SpecialKey::ManifestPath => {
                self.manifest_path = Some(value);
            },
            SpecialKey::Target => {
                self.target = Some(value);
            },
            SpecialKey::Profiler => {
                self.profiler = Some(value);
            },
        }
        proof {
            assert(self@ =~~= spec_insert(old(self)@, key, value@));
        }
    }
}

/// The special key an argument name denotes, if any.
pub fn special_of(s: &str) -> (r: Option<SpecialKey>)
    ensures
        r == spec_special_of(s@),
{
    if str_eq(s, "manifest-path") {
        Some(SpecialKey::ManifestPath)
    } else if str_eq(s, "target") {
        Some(SpecialKey::Target)
    } else if str_eq(s, "profiler") {
        Some(SpecialKey::Profiler)
    } else {
        None
    }
}

/// State of the argument partition: the special key awaiting its value, the
/// double-minus flag, the forwarded arguments, and the specials seen.
#[verifier::ext_equal]
pub struct NormState {
    pub cur: Option<SpecialKey>,
    pub dm: bool,
    pub out: Seq<Seq<char>>,
    pub sp: SpecialView,
}

/// One step of the argument partition.
pub open spec fn norm_step(st: NormState, arg: Seq<char>) -> NormState {
    if st.dm {
        NormState { out: st.out.push(arg), ..st }
    } else {
        match st.cur {
            Some(k) => NormState { cur: None, sp: spec_insert(st.sp, k, arg), ..st },
            None => if starts_with_spec(arg, "--"@) {
                let rest = arg.skip(2);
                if rest.len() == 0 {
                    NormState { dm: true, out: st.out.push(arg), ..st }
                } else {
                    match spec_special_of(rest) {
                        Some(k) => NormState { cur: Some(k), ..st },
                        None => match find_char_spec(rest, '=') {
                            Some(e) => match spec_special_of(rest.subrange(0, e)) {
                                Some(k) => NormState {
                                    sp: spec_insert(st.sp, k, rest.skip(e + 1)),
                                    ..st
                                },
                                None => NormState { out: st.out.push(arg), ..st },
                            },
                            None => NormState { out: st.out.push(arg), ..st },
                        },
                    }
                }
            } else {
                NormState { out: st.out.push(arg), ..st }
            },
        }
    }
}

/// The partition folded over a whole argument list.
pub open spec fn norm_fold(args: Seq<Seq<char>>, st: NormState) -> NormState
    decreases args.len(),
{
    if args.len() == 0 {
        st
    } else {
        norm_fold(args.drop_first(), norm_step(st, args[0]))
    }
}

/// Extracts the special arguments from an argument list.
///
/// A special argument appears as `--name value` or `--name=value`; its value
/// lands in `specialized` and it is removed from the list. Everything after
/// a bare `--` (which itself stays) is forwarded untouched; the remaining
/// arguments are returned in order. A trailing `--name` without a value is
/// dropped.
#[verifier::rlimit(50)]
pub fn normalize(args: &Vec<String>, specialized: &mut SpecialMap) -> (r: Vec<String>)
    ensures
        ({
            let fin = norm_fold(
                strings_view(args@),
                NormState { cur: None, dm: false, out: Seq::empty(), sp: old(specialized)@ },
            );
            strings_view(r@) == fin.out && final(specialized)@ == fin.sp
        }),
{
    let ghost av = strings_view(args@);
    let ghost st_init = NormState {
        cur: None,
        dm: false,
        out: Seq::empty(),
        sp: specialized@,
    };
    let n = args.len();
    let mut out: Vec<String> = Vec::new();
    let mut cur: Option<SpecialKey> = None;
    let mut dm = false;
    let mut idx: usize = 0;
    proof {
        assert(av.skip(0) =~= av);
        assert(strings_view(out@) =~= Seq::<Seq<char>>::empty());
        assert(st_init =~~= (NormState {
            cur,
            dm,
            out: strings_view(out@),
            sp: specialized@,
        }));
    }
    while idx < n
        invariant
            0 <= idx <= n,
            n == args@.len(),
            av == strings_view(args@),
            st_init == (NormState {
                cur: None,
                dm: false,
                out: Seq::empty(),
                sp: old(specialized)@,
            }),
            norm_fold(av, st_init) == norm_fold(
                av.skip(idx as int),
                NormState { cur, dm, out: strings_view(out@), sp: specialized@ },
            ),
        decreases n - idx,
    {
        let ghost st0 = NormState {
            cur,
            dm,
            out: strings_view(out@),
            sp: specialized@,
        };
        proof {
            assert(av.skip(idx as int)[0] == av[idx as int]);
            assert(av.skip(idx as int).drop_first() =~= av.skip(idx as int + 1));
            assert(av[idx as int] == args@[idx as int]@);
        }
        let arg = &args[idx];
        let ghost prev_out = strings_view(out@);
        if dm {
            out.push(arg.clone());
            proof {
                assert(strings_view(out@) =~= prev_out.push(arg@));
            }
        } else {
            match cur {
                Some(k) => {
                    specialized.insert(k, arg.clone());
                    cur = None;
                },
                None => {
                    let a = arg.as_str();
                    if str_starts_with(a, "--") {
                        proof {
                            reveal_strlit("--");
                        }
                        let la = a.unicode_len();
                        let rest = a.substring_char(2, la);
                        proof {
                            assert(rest@ =~= a@.skip(2));
                        }
                        if rest.unicode_len() == 0 {
                            dm = true;
                            out.push(arg.clone());
                            proof {
                                assert(strings_view(out@) =~= prev_out.push(arg@));
                            }
                        } else {
                            match special_of(rest) {
                                Some(k) => {
                                    cur = Some(k);
                                },
                                None => {
                                    match crate::sourcepath::find_char_from(rest, 0, '=') {
                                        Some(e) => {
                                            proof {
                                                assert(rest@.skip(0) =~= rest@);
                                                let j = choose|j: int|
                                                    is_first_char(rest@, '=', j);
                                                assert(is_first_char(rest@, '=', j));
                                                assert(j == e as int);
                                            }
                                            let lr = rest.unicode_len();
                                            let namepart = rest.substring_char(0, e);
                                            proof {
                                                assert(namepart@ =~= rest@.subrange(0, e as int));
                                            }
                                            match special_of(namepart) {
                                                Some(k) => {
                                                    let value = rest.substring_char(
                                                        e + 1,
                                                        lr,
                                                    ).to_owned();
                                                    proof {
                                                        assert(value@ =~= rest@.skip(e as int + 1));
                                                    }
                                                    specialized.insert(k, value);
                                                },
                                                None => {
                                                    out.push(arg.clone());
                                                    proof {
                                                        assert(strings_view(out@)
                                                            =~= prev_out.push(arg@));
                                                    }
                                                },
                                            }
                                        },
                                        None => {
                                            proof {
                                                assert(rest@.skip(0) =~= rest@);
                                            }
                                            out.push(arg.clone());
                                            proof {
                                                assert(strings_view(out@)
                                                    =~= prev_out.push(arg@));
                                            }
                                        },
                                    }
                                },
                            }
                        }
                    } else {
                        out.push(arg.clone());
                        proof {
                            assert(strings_view(out@) =~= prev_out.push(arg@));
                        }
                    }
                },
            }
        }
        proof {
            let stepped = norm_step(st0, av[idx as int]);
            let cur_out = strings_view(out@);
            let stn = NormState { cur, dm, out: cur_out, sp: specialized@ };
            assert(stepped =~~= stn);
        }
        idx += 1;
    }
    proof {
        assert(av.skip(n as int) =~= Seq::<Seq<char>>::empty());
    }
    out
}

/// Whether a `rustc` flag takes a value of its own (`--foo bar`).
pub open spec fn is_flag_with_value(s: Seq<char>) -> bool {
    ||| s == "--allow"@
    ||| s == "--cap-lints"@
    ||| s == "--cfg"@
    ||| s == "--codegen"@
    ||| s == "--color"@
    ||| s == "--crate-name"@
    ||| s == "--crate-type"@
    ||| s == "--deny"@
    ||| s == "--emit"@
    ||| s == "--error-format"@
    ||| s == "--explain"@
    ||| s == "--extern"@
    ||| s == "--forbid"@
    ||| s == "--out-dir"@
    ||| s == "--pretty"@
    ||| s == "--print"@
    ||| s == "--sysroot"@
    ||| s == "--target"@
    ||| s == "--unpretty"@
    ||| s == "--warn"@
    ||| s == "-A"@
    ||| s == "-C"@
    ||| s == "-D"@
    ||| s == "-F"@
    ||| s == "-l"@
    ||| s == "-L"@
    ||| s == "-o"@
    ||| s == "-W"@
    ||| s == "-Z"@
}

/// Whether a `rustc` flag takes a value of its own.
pub fn flag_with_value(s: &str) -> (r: bool)
    ensures
        r == is_flag_with_value(s@),
{
    str_eq(s, "--allow") || str_eq(s, "--cap-lints") || str_eq(s, "--cfg") || str_eq(
        s,
        "--codegen",
    ) || str_eq(s, "--color") || str_eq(s, "--crate-name") || str_eq(s, "--crate-type") || str_eq(
        s,
        "--deny",
    ) || str_eq(s, "--emit") || str_eq(s, "--error-format") || str_eq(s, "--explain") || str_eq(
        s,
        "--extern",
    ) || str_eq(s, "--forbid") || str_eq(s, "--out-dir") || str_eq(s, "--pretty") || str_eq(
        s,
        "--print",
    ) || str_eq(s, "--sysroot") || str_eq(s, "--target") || str_eq(s, "--unpretty") || str_eq(
        s,
        "--warn",
    ) || str_eq(s, "-A") || str_eq(s, "-C") || str_eq(s, "-D") || str_eq(s, "-F") || str_eq(
        s,
        "-l",
    ) || str_eq(s, "-L") || str_eq(s, "-o") || str_eq(s, "-W") || str_eq(s, "-Z")
}

/// A path is relative when it does not begin with the separator.
pub open spec fn path_is_relative(p: Seq<char>) -> bool {
    !(p.len() > 0 && p[0] == PATH_SEPARATOR)
}

/// A path lies under `ws` when `ws` is a prefix ending at a component
/// boundary.
pub open spec fn path_starts_with_spec(p: Seq<char>, ws: Seq<char>) -> bool {
    &&& starts_with_spec(p, ws)
    &&& {
        ||| p.len() == ws.len()
        ||| (ws.len() > 0 && ws[ws.len() - 1] == PATH_SEPARATOR)
        ||| (p.len() > ws.len() && p[ws.len() as int] == PATH_SEPARATOR)
    }
}

/// What scanning the compiler arguments decides, skipping the next argument
/// after a flag that takes a value.
pub open spec fn spec_is_local(args: Seq<Seq<char>>, ws: Seq<char>, skip_next: bool) -> bool
    decreases args.len(),
{
    if args.len() == 0 {
        false
    } else if skip_next {
        spec_is_local(args.drop_first(), ws, false)
    } else {
        let a = args[0];
        if is_flag_with_value(a) {
            spec_is_local(args.drop_first(), ws, true)
        } else if a == "--"@ {
            false
        } else if starts_with_spec(a, "-"@) {
            spec_is_local(args.drop_first(), ws, false)
        } else {
            path_is_relative(a) || path_starts_with_spec(a, ws)
        }
    }
}

/// Finds out the path of the crate `rustc` is building from its arguments:
/// the first argument that is neither a flag nor a flag's value. Returns
/// whether that path is relative or a descendant of `workspace_path`; a
/// bare `--`, or an argument list with no such path, decides against.
pub fn is_rustc_compiling_local_crate(args: &Vec<String>, workspace_path: &str) -> (r: bool)
    ensures
        r == spec_is_local(strings_view(args@), workspace_path@, false),
{
    let ghost av = strings_view(args@);
    let n = args.len();
    let mut skip_next = false;
    let mut idx: usize = 0;
    proof {
        assert(av.skip(0) =~= av);
    }
    while idx < n
        invariant
            0 <= idx <= n,
            n == args@.len(),
            av == strings_view(args@),
            spec_is_local(av, workspace_path@, false) == spec_is_local(
                av.skip(idx as int),
                workspace_path@,
                skip_next,
            ),
        decreases n - idx,
    {
        proof {
            assert(av.skip(idx as int)[0] == av[idx as int]);
            assert(av.skip(idx as int).drop_first() =~= av.skip(idx as int + 1));
            assert(av[idx as int] == args@[idx as int]@);
        }
        let a = args[idx].as_str();
        if skip_next {
            skip_next = false;
        } else if flag_with_value(a) {
            skip_next = true;
        } else if str_eq(a, "--") {
            return false;
        } else if str_starts_with(a, "-") {
        } else {
            let rel = {
                let la = a.unicode_len();
                if la == 0 {
                    true
                } else {
                    a.get_char(0) != PATH_SEPARATOR
                }
            };
            if rel {
                return true;
            }
            if str_starts_with(a, workspace_path) {
                let la = a.unicode_len();
                let lw = workspace_path.unicode_len();
                if la == lw {
                    return true;
                }
                if lw > 0 && workspace_path.get_char(lw - 1) == PATH_SEPARATOR {
                    return true;
                }
                if a.get_char(lw) == PATH_SEPARATOR {
                    return true;
                }
                return false;
            }
            return false;
        }
        idx += 1;
    }
    proof {
        assert(av.skip(n as int) =~= Seq::<Seq<char>>::empty());
    }
    false
}

/// `i` is the last position of `c` in `s`.
pub open spec fn is_last_char(s: Seq<char>, c: char, i: int) -> bool {
    &&& 0 <= i < s.len()
    &&& s[i] == c
    &&& forall|j: int| i < j < s.len() ==> s[j] != c
}

/// The last position of `c` in `s`, if any.
pub open spec fn rfind_char_spec(s: Seq<char>, c: char) -> Option<int> {
    if exists|i: int| is_last_char(s, c, i) {
        Some(choose|i: int| is_last_char(s, c, i))
    } else {
        None
    }
}

/// The parent of a path: everything before the last separator, or the empty
/// string when there is none.
pub open spec fn parent_spec(p: Seq<char>) -> Seq<char> {
    match rfind_char_spec(p, PATH_SEPARATOR) {
        Some(i) => p.subrange(0, i),
        None => Seq::empty(),
    }
}

/// Three parents up: strips the last three path components.
pub open spec fn parent3_spec(p: Seq<char>) -> Seq<char> {
    parent_spec(parent_spec(parent_spec(p)))
}

/// The parent of a path string.
pub fn parent_str(p: &str) -> (r: String)
    ensures
        r@ == parent_spec(p@),
{
    let lp = p.unicode_len();
    let mut last: Option<usize> = None;
    let mut i: usize = 0;
    while i < lp
        invariant
            0 <= i <= lp,
            lp == p@.len(),
            match last {
                Some(j) => j < i && p@[j as int] == PATH_SEPARATOR && forall|k: int|
                    j < k < i ==> p@[k] != PATH_SEPARATOR,
                None => forall|k: int| 0 <= k < i ==> p@[k] != PATH_SEPARATOR,
            },
        decreases lp - i,
    {
        if p.get_char(i) == PATH_SEPARATOR {
            last = Some(i);
        }
        i += 1;
    }
    match last {
        Some(j) => {
            proof {
                assert(is_last_char(p@, PATH_SEPARATOR, j as int));
                let w = choose|w: int| is_last_char(p@, PATH_SEPARATOR, w);
                assert(is_last_char(p@, PATH_SEPARATOR, w));
                if w < j as int {
                    assert(p@[j as int] == PATH_SEPARATOR);
                    assert(false);
                }
                if w > j as int {
                    assert(p@[w] == PATH_SEPARATOR);
                    assert(false);
                }
            }
            p.substring_char(0, j).to_owned()
        },
        None => {
            proof {
                if exists|w: int| is_last_char(p@, PATH_SEPARATOR, w) {
                    let w = choose|w: int| is_last_char(p@, PATH_SEPARATOR, w);
                    assert(p@[w] != PATH_SEPARATOR);
                }
            }
            String::new()
        },
    }
}

/// Errors of configuration assembly.
#[derive(Clone, Copy, Debug, PartialEq, Eq, Structural)]
pub enum ConfigError {
    /// Neither a workspace path nor a coverage build path is available.
    MissingWorkspace,
    /// A requested category names no known source type.
    UnsupportedSourceType,
}

/// Parsed configuration for producing a report.
#[derive(Debug)]
pub struct ReportConfig {
    /// Root of the workspace being reported on.
    pub workspace_path: String,
    /// Directory holding the coverage notes files.
    pub gcno_path: String,
    /// Directory holding the counter data files.
    pub gcda_path: String,
    /// Destination directory of the report.
    pub output_path: String,
    /// Name of the report template.
    pub template_name: String,
    /// Source path categories included in the report.
    pub allowed_source_types: SourceType,
}

/// Mathematical model of a `ReportConfig`.
#[verifier::ext_equal]
pub struct ConfigView {
    pub workspace_path: Seq<char>,
    pub gcno_path: Seq<char>,
    pub gcda_path: Seq<char>,
    pub output_path: Seq<char>,
    pub template_name: Seq<char>,
    pub allowed_source_types: SourceType,
}

impl View for ReportConfig {
    type V = ConfigView;

    open spec fn view(&self) -> ConfigView {
        ConfigView {
            workspace_path: self.workspace_path@,
            gcno_path: self.gcno_path@,
            gcda_path: self.gcda_path@,
            output_path: self.output_path@,
            template_name: self.template_name@,
            allowed_source_types: self.allowed_source_types,
        }
    }
}

/// The view of an optional string.
pub open spec fn opt_str_view(o: Option<String>) -> Option<Seq<char>> {
    match o {
        Some(s) => Some(s@),
        None => None,
    }
}

/// What assembling the configuration yields.
///
/// The workspace and the coverage build directory determine each other:
/// given a workspace, the build directory is `target/cov/build` under it;
/// given only the build directory, the workspace is three components up.
/// With neither, `MissingWorkspace`. The notes, data and output directories
/// and the template name fall back to their conventional defaults, and the
/// allowed categories come from the given names (default set when absent).
pub open spec fn spec_parse(
    workspace: Option<Seq<char>>,
    cov_build: Option<Seq<char>>,
    gcno: Option<Seq<char>>,
    gcda: Option<Seq<char>>,
    output: Option<Seq<char>>,
    template: Option<Seq<char>>,
    categories: Option<Seq<Seq<char>>>,
) -> Result<ConfigView, ConfigError> {
    let wb = match workspace {
        Some(ws) => Some((ws, ws + "/target/cov/build"@)),
        None => match cov_build {
            Some(c) => Some((parent3_spec(c), c)),
            None => None,
        },
    };
    match wb {
        None => Err(ConfigError::MissingWorkspace),
        Some((ws, cbp)) => {
            let at = match categories {
                None => Ok(SourceType { bits: DEFAULT }),
                Some(ss) => spec_from_multi(ss, 0),
            };
            match at {
                Err(_) => Err(ConfigError::UnsupportedSourceType),
                Ok(t) => Ok(
                    ConfigView {
                        workspace_path: ws,
                        gcno_path: match gcno {
                            Some(g) => g,
                            None => cbp + "/gcno"@,
                        },
                        gcda_path: match gcda {
                            Some(g) => g,
                            None => cbp + "/gcda"@,
                        },
                        output_path: match output {
                            Some(o) => o,
                            None => ws + "/target/cov/report"@,
                        },
                        template_name: match template {
                            Some(t2) => t2,
                            None => "html"@,
                        },
                        allowed_source_types: t,
                    },
                ),
            }
        },
    }
}

impl ReportConfig {
    /// Assembles the configuration for the report subcommand from parsed
    /// argument values, per `spec_parse`.
    pub fn parse(
        workspace: Option<String>,
        cov_build_path: Option<String>,
        gcno: Option<String>,
        gcda: Option<String>,
        output: Option<String>,
        template: Option<String>,
        categories: Option<Vec<String>>,
    ) -> (r: Result<ReportConfig, ConfigError>)
        ensures
            match r {
                Ok(c) => spec_parse(
                    opt_str_view(workspace),
                    opt_str_view(cov_build_path),
                    opt_str_view(gcno),
                    opt_str_view(gcda),
                    opt_str_view(output),
                    opt_str_view(template),
                    match categories {
                        Some(v) => Some(strings_view(v@)),
                        None => None,
                    },
                ) == Ok::<ConfigView, ConfigError>(c@),
                Err(e) => spec_parse(
                    opt_str_view(workspace),
                    opt_str_view(cov_build_path),
                    opt_str_view(gcno),
                    opt_str_view(gcda),
                    opt_str_view(output),
                    opt_str_view(template),
                    match categories {
                        Some(v) => Some(strings_view(v@)),
                        None => None,
                    },
                ) == Err::<ConfigView, ConfigError>(e),
            },
    {
        let (ws, cbp): (String, String) = match workspace {
            Some(wsv) => {
                let cbp = wsv.clone().concat("/target/cov/build");
                (wsv, cbp)
            },
            None => match cov_build_path {
                Some(c) => {
                    let p1 = parent_str(c.as_str());
                    let p2 = parent_str(p1.as_str());
                    let ws = parent_str(p2.as_str());
                    (ws, c)
                },
                None => {
                    return Err(ConfigError::MissingWorkspace);
                },
            },
        };
        let allowed: SourceType = match &categories {
            None => SourceType { bits: DEFAULT },
            Some(v) => match SourceType::from_multi_str(v) {
                Ok(t) => t,
                Err(_) => {
                    return Err(ConfigError::UnsupportedSourceType);
                },
            },
        };
        let gcno_path = match gcno {
            Some(g) => g,
            None => cbp.clone().concat("/gcno"),
        };
        let gcda_path = match gcda {
            Some(g) => g,
            None => cbp.clone().concat("/gcda"),
        };
        let output_path = match output {
            Some(o) => o,
            None => ws.clone().concat("/target/cov/report"),
        };
        let template_name = match template {
            Some(t) => t,
            None => String::from_str("html"),
        };
        let c = ReportConfig {
            workspace_path: ws,
            gcno_path,
            gcda_path,
            output_path,
            template_name,
            allowed_source_types: allowed,
        };
        proof {
            assert(c@ =~~= (match spec_parse(
                opt_str_view(workspace),
                opt_str_view(cov_build_path),
                opt_str_view(gcno),
                opt_str_view(gcda),
                opt_str_view(output),
                opt_str_view(template),
                match categories {
                    Some(v) => Some(strings_view(v@)),
                    None => None,
                },
            ) {
                Ok(cv) => cv,
                Err(_) => c@,
            }));
        }
        Ok(c)
    }
}

} // verus!
