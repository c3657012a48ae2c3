use cov::argparse::{
    is_rustc_compiling_local_crate, normalize, parent_str, ConfigError, ReportConfig, SpecialMap,
};
use cov::interner::Interner;
use cov::sourcepath::{
    identify_source_path, identify_source_path_with, SourceType, UnsupportedSourceTypeName, ALL,
    CRATES, DEFAULT, LOCAL, MACROS, RUSTSRC, UNKNOWN,
};
use cov::utils::{tuple_3_add, tuple_4_add, IntoStringLossy};

#[test]
fn interner_same_string_same_id() {
    let mut interner = Interner::new();
    let a = interner.intern(b"src/lib.rs".to_vec());
    let b = interner.intern(b"src/main.rs".to_vec());
    let a2 = interner.intern(b"src/lib.rs".to_vec());
    assert_eq!(a, a2);
    assert_ne!(a, b);
    assert_eq!(interner.resolve(a).as_slice(), b"src/lib.rs");
    assert_eq!(interner.resolve(b).as_slice(), b"src/main.rs");
    assert_eq!(interner.len(), 2);
}

#[test]
fn identify_local_path() {
    let (t, l) = identify_source_path_with("/ws/src/lib.rs", "/ws", None);
    assert_eq!(t.bits, LOCAL);
    assert_eq!(l, 3);
}

#[test]
fn identify_registry_path() {
    let (t, l) = identify_source_path_with(
        "/reg/src/serde-1.0.0/src/lib.rs",
        "/ws",
        Some("/reg/src/"),
    );
    assert_eq!(t.bits, CRATES);
    assert_eq!(l, "/reg/src/serde-1.0.0/".len());
}

#[test]
fn identify_macros_path() {
    let (t, l) = identify_source_path_with("<print macros>", "/ws", None);
    assert_eq!(t.bits, MACROS);
    assert_eq!(l, 0);
}

#[test]
fn identify_rustsrc_path() {
    let source_path = "/Users/travis/build/rust-lang/rust/src/libstd/lib.rs";
    let (t, l) = identify_source_path_with(source_path, "/workspace/path", None);
    assert_eq!(t.bits, RUSTSRC);
    let simplified = format!("{}/{}", t.prefix(), &source_path[l..]);
    assert_eq!(simplified, "\u{ab}rust\u{bb}/src/libstd/lib.rs");
    let (t2, _) = identify_source_path_with("/checkout/src/x.rs", "/ws", None);
    assert_eq!(t2.bits, RUSTSRC);
}

#[test]
fn identify_unknown_path() {
    let (t, l) = identify_source_path_with("/somewhere/else.rs", "/ws", None);
    assert_eq!(t.bits, UNKNOWN);
    assert_eq!(l, 0);
}

#[test]
fn identify_with_environment_registry() {
    let (t, _l) = identify_source_path("/ws/src/lib.rs", "/ws");
    assert_eq!(t.bits, LOCAL);
}

#[test]
fn source_type_from_str_names() {
    assert_eq!(SourceType::from_str("local").unwrap().bits, LOCAL);
    assert_eq!(SourceType::from_str("macros").unwrap().bits, MACROS);
    assert_eq!(SourceType::from_str("rustsrc").unwrap().bits, RUSTSRC);
    assert_eq!(SourceType::from_str("crates").unwrap().bits, CRATES);
    assert_eq!(SourceType::from_str("unknown").unwrap().bits, UNKNOWN);
    assert_eq!(SourceType::from_str("all").unwrap().bits, ALL);
    assert!(SourceType::from_str("nonsense").is_err());
}

#[test]
fn source_type_union_of_names() {
    let names = vec!["local".to_string(), "crates".to_string()];
    let t = SourceType::from_multi_str(&names).unwrap();
    assert_eq!(t.bits, LOCAL | CRATES);
    let bad = vec!["local".to_string(), "bogus".to_string()];
    let e: Result<SourceType, UnsupportedSourceTypeName> = SourceType::from_multi_str(&bad);
    assert!(e.is_err());
    assert_eq!(DEFAULT, LOCAL | MACROS | UNKNOWN);
}

#[test]
fn source_type_prefixes() {
    assert_eq!(SourceType { bits: LOCAL }.prefix(), ".");
    assert_eq!(SourceType { bits: RUSTSRC }.prefix(), "\u{ab}rust\u{bb}");
    assert_eq!(SourceType { bits: CRATES }.prefix(), "\u{ab}crates\u{bb}");
    assert_eq!(SourceType { bits: MACROS }.prefix(), "");
}

#[test]
fn normalize_extracts_specials() {
    let args = vec![
        "--manifest-path".to_string(),
        "Cargo.toml".to_string(),
        "clean".to_string(),
        "--target=x86".to_string(),
        "--keep".to_string(),
    ];
    let mut sp = SpecialMap::new();
    let rest = normalize(&args, &mut sp);
    assert_eq!(sp.manifest_path.as_deref(), Some("Cargo.toml"));
    assert_eq!(sp.target.as_deref(), Some("x86"));
    assert_eq!(sp.profiler, None);
    assert_eq!(rest, vec!["clean".to_string(), "--keep".to_string()]);
}

#[test]
fn normalize_stops_at_double_minus() {
    let args = vec![
        "--".to_string(),
        "--manifest-path".to_string(),
        "x".to_string(),
    ];
    let mut sp = SpecialMap::new();
    let rest = normalize(&args, &mut sp);
    assert_eq!(sp.manifest_path, None);
    assert_eq!(
        rest,
        vec!["--".to_string(), "--manifest-path".to_string(), "x".to_string()]
    );
}

#[test]
fn rustc_local_crate_detection() {
    let ws = "/ws";
    let rel = vec!["--crate-name".to_string(), "x".to_string(), "src/lib.rs".to_string()];
    assert!(is_rustc_compiling_local_crate(&rel, ws));
    let abs_in = vec!["/ws/src/lib.rs".to_string()];
    assert!(is_rustc_compiling_local_crate(&abs_in, ws));
    let abs_out = vec!["/elsewhere/lib.rs".to_string()];
    assert!(!is_rustc_compiling_local_crate(&abs_out, ws));
    let not_boundary = vec!["/wsx/lib.rs".to_string()];
    assert!(!is_rustc_compiling_local_crate(&not_boundary, ws));
    let double_minus = vec!["--".to_string(), "src/lib.rs".to_string()];
    assert!(!is_rustc_compiling_local_crate(&double_minus, ws));
    let skipped_value = vec!["-L".to_string(), "src/lib.rs".to_string()];
    assert!(!is_rustc_compiling_local_crate(&skipped_value, ws));
}

#[test]
fn parent_of_path_strings() {
    assert_eq!(parent_str("/a/b/c"), "/a/b");
    assert_eq!(parent_str("plain"), "");
}

#[test]
fn report_config_defaults_from_workspace() {
    let c = ReportConfig::parse(Some("/ws".to_string()), None, None, None, None, None, None)
        .unwrap();
    assert_eq!(c.workspace_path, "/ws");
    assert_eq!(c.gcno_path, "/ws/target/cov/build/gcno");
    assert_eq!(c.gcda_path, "/ws/target/cov/build/gcda");
    assert_eq!(c.output_path, "/ws/target/cov/report");
    assert_eq!(c.template_name, "html");
    assert_eq!(c.allowed_source_types.bits, DEFAULT);
}

#[test]
fn report_config_workspace_from_build_path() {
    let c = ReportConfig::parse(
        None,
        Some("/ws/target/cov/build".to_string()),
        Some("/g".to_string()),
        None,
        None,
        Some("text".to_string()),
        Some(vec!["all".to_string()]),
    )
    .unwrap();
    assert_eq!(c.workspace_path, "/ws");
    assert_eq!(c.gcno_path, "/g");
    assert_eq!(c.template_name, "text");
    assert_eq!(c.allowed_source_types.bits, ALL);
}

#[test]
fn report_config_errors() {
    let e = ReportConfig::parse(None, None, None, None, None, None, None).unwrap_err();
    assert_eq!(e, ConfigError::MissingWorkspace);
    let e2 = ReportConfig::parse(
        Some("/ws".to_string()),
        None,
        None,
        None,
        None,
        None,
        Some(vec!["bogus".to_string()]),
    )
    .unwrap_err();
    assert_eq!(e2, ConfigError::UnsupportedSourceType);
}

#[test]
fn tuple_sums() {
    assert_eq!(tuple_3_add((1, 2, 3), (10, 20, 30)), (11, 22, 33));
    assert_eq!(tuple_4_add((1, 2, 3, 4), (10, 20, 30, 40)), (11, 22, 33, 44));
}

#[test]
fn lossy_string_conversion() {
    let ok: Vec<u8> = b"hello".to_vec();
    assert_eq!(ok.into_string_lossy(), "hello");
    let bad: Vec<u8> = vec![0x68, 0xFF, 0x69];
    assert_eq!(bad.into_string_lossy(), "h\u{FFFD}i");
}
