use thunder::check::{
    is_glob_pattern, is_supported_source_file, matches_ignore, run, sort_paths, CheckArgs, CheckError,
};

#[test]
fn glob_detection() {
    assert!(is_glob_pattern("./**/*.ts"));
    assert!(is_glob_pattern("a?.ts"));
    assert!(is_glob_pattern("[ab].ts"));
    assert!(is_glob_pattern("*.{ts,js}"));
    assert!(!is_glob_pattern("./functions/hello.ts"));
}

#[test]
fn supported_extensions() {
    for f in ["a.ts", "a.js", "a.mts", "a.mjs", "a.tsx", "a.jsx", "a.cjs", "a.cts"] {
        assert!(is_supported_source_file(f));
    }
    assert!(!is_supported_source_file("a.json"));
    assert!(!is_supported_source_file("Makefile"));
}

#[test]
fn ignore_matches_relative_and_dotted_forms() {
    let pats = vec!["functions/skip.ts".to_string()];
    assert!(matches_ignore("/work/functions/skip.ts", "/work", &pats));
    let pats = vec!["./functions/*.ts".to_string()];
    assert!(matches_ignore("/work/functions/a.ts", "/work", &pats));
    assert!(!matches_ignore("/work/other/a.ts", "/work", &pats));
    assert!(!matches_ignore("/work/functions/a.ts", "/work", &vec![]));
}

#[test]
fn run_filters_sorts_and_dedups() {
    let args = CheckArgs { path: "./**/*.ts".to_string(), ignore: vec!["**/skip.ts".to_string()] };
    let candidates = vec![
        "b/x.ts".to_string(),
        "a/y.js".to_string(),
        "b/x.ts".to_string(),
        "a/skip.ts".to_string(),
        "a/readme.md".to_string(),
        "a-b.ts".to_string(),
    ];
    let files = run(&args, &candidates, "/work").expect("files");
    assert_eq!(files, vec!["a/y.js".to_string(), "a-b.ts".to_string(), "b/x.ts".to_string()]);
}

#[test]
fn run_reports_no_files() {
    let args = CheckArgs { path: ".".to_string(), ignore: vec![] };
    let candidates = vec!["notes.txt".to_string()];
    assert_eq!(run(&args, &candidates, "/work"), Err(CheckError::NoSourceFiles));
}

#[test]
fn run_reports_invalid_ignore_pattern() {
    let args = CheckArgs { path: ".".to_string(), ignore: vec!["[".to_string()] };
    let candidates = vec!["a.ts".to_string()];
    assert_eq!(run(&args, &candidates, "/work"), Err(CheckError::InvalidIgnorePattern("[".to_string())));
}

#[test]
fn check_error_messages() {
    let ignore = vec!["a".to_string()];
    let dbg = format!("{:?}", ignore);
    assert_eq!(
        CheckError::NoSourceFiles.message("./x", &dbg),
        "no source files found for './x' (ignore: [\"a\"])"
    );
    assert_eq!(CheckError::InvalidIgnorePattern("[".to_string()).message("p", "[]"), "invalid ignore pattern '['");
}

#[test]
fn run_orders_and_dedups_by_path_components() {
    let args = CheckArgs { path: ".".to_string(), ignore: vec![] };
    let candidates = vec![
        "b.ts".to_string(),
        "a/./x.ts".to_string(),
        "a//x.ts".to_string(),
        "a/x.ts".to_string(),
        "./c.ts".to_string(),
    ];
    let files = run(&args, &candidates, "/work").expect("files");
    assert_eq!(files, vec!["./c.ts".to_string(), "a/./x.ts".to_string(), "b.ts".to_string()]);
}

#[test]
fn sort_paths_puts_parent_dir_before_names() {
    let v = vec!["-x.ts".to_string(), "../a.ts".to_string(), "a.ts".to_string()];
    assert_eq!(sort_paths(&v), vec!["../a.ts".to_string(), "-x.ts".to_string(), "a.ts".to_string()]);
}

#[test]
fn sort_paths_keeps_the_first_text_of_each_path() {
    let v = vec!["b.ts".to_string(), "a//x.ts".to_string(), "a/x.ts".to_string(), "b.ts".to_string()];
    assert_eq!(sort_paths(&v), vec!["a//x.ts".to_string(), "b.ts".to_string()]);
}
