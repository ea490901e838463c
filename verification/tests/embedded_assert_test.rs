use thunder::embedded_assert::{load_module_bytes, rewrite_edge_assert_imports, EmbeddedSources};

#[test]
fn keeps_edge_assert_imports_unchanged() {
    let input = b"import { assertEquals } from 'edge://assert/mod.ts';\n".to_vec();
    let output = rewrite_edge_assert_imports(input);
    let out = String::from_utf8(output).expect("utf8");

    assert!(out.contains("edge://assert/mod.ts"));
}

#[test]
fn rewrites_thunder_testing_alias() {
    let input = b"import { assertEquals } from 'thunder:testing';\n".to_vec();
    let output = rewrite_edge_assert_imports(input);
    let out = String::from_utf8(output).expect("utf8");

    assert!(out.contains("edge://assert/mod.ts"));
    assert!(!out.contains("thunder:testing"));
}

#[test]
fn rewrites_thunder_http_alias() {
    let input = b"import { JSONResponse } from 'thunder:http';\n".to_vec();
    let output = rewrite_edge_assert_imports(input);
    let out = String::from_utf8(output).expect("utf8");

    assert!(out.contains("edge://http/mod.ts"));
    assert!(!out.contains("thunder:http"));
}

#[test]
fn rewrite_gives_exact_output_for_both_aliases() {
    let input = b"a 'thunder:testing' b 'thunder:http' c thunder:testing".to_vec();
    let out = rewrite_edge_assert_imports(input);
    assert_eq!(
        out,
        b"a 'edge://assert/mod.ts' b 'edge://http/mod.ts' c edge://assert/mod.ts".to_vec()
    );
}

#[test]
fn rewrite_leaves_alias_free_text_unchanged() {
    let input = b"const x = 1; // nothing to rewrite\n".to_vec();
    let out = rewrite_edge_assert_imports(input.clone());
    assert_eq!(out, input);
}

#[test]
fn rewrite_replaces_invalid_utf8_with_replacement_char() {
    let input = vec![b'a', 0xff, b'b'];
    let out = rewrite_edge_assert_imports(input);
    assert_eq!(String::from_utf8(out).expect("utf8"), "a\u{FFFD}b");
}

fn sources() -> EmbeddedSources {
    EmbeddedSources {
        assert_user_mod: "user assert".to_string(),
        assert_mod: "assert mod".to_string(),
        assert_assert: "import { mock } from \"./mock/mod.ts\";\nexport class AssertionError {}".to_string(),
        assert_mock_mod: "export * from \"./mockFn.ts\";\nexport * from \"./spy.ts\";\nexport * from \"./fetch.ts\";\nexport * from \"./time.ts\";".to_string(),
        assert_mock_fn: "mock fn".to_string(),
        assert_mock_spy: "import \"./mockFn.ts\";".to_string(),
        assert_mock_fetch: "import \"./mockFn.ts\"; fetch".to_string(),
        assert_mock_time: "time".to_string(),
        http_user_mod: "export * from \"./http.ts\"; HTTP".to_string(),
        http_mod: "http mod".to_string(),
        http_http: "http http".to_string(),
    }
}

#[test]
fn load_module_bytes_serves_plain_source() {
    let src = sources();
    let out = load_module_bytes("edge://http/mod.ts", &src).expect("module must exist");
    let text = String::from_utf8(out).expect("utf8");
    assert!(text.contains("HTTP"));
    assert!(text.contains("./http.ts"));
}

#[test]
fn load_module_bytes_rewrites_ext_assert_imports() {
    let src = sources();
    let out = load_module_bytes("ext:edge_assert/assert.ts", &src).expect("module must exist");
    let text = String::from_utf8(out).expect("utf8");
    assert!(text.contains("export class AssertionError"));
    assert!(text.contains("\"edge://assert/mock/mod.ts\""));
    assert!(!text.contains("\"./mock/mod.ts\""));
}

#[test]
fn load_module_bytes_rewrites_all_mock_imports() {
    let src = sources();
    let out = load_module_bytes("ext:edge_assert/mock/mod.ts", &src).expect("module must exist");
    let text = String::from_utf8(out).expect("utf8");
    assert_eq!(
        text,
        "export * from \"edge://assert/mock/mockFn.ts\";\nexport * from \"edge://assert/mock/spy.ts\";\nexport * from \"edge://assert/mock/fetch.ts\";\nexport * from \"edge://assert/mock/time.ts\";"
    );
}

#[test]
fn load_module_bytes_none_for_unknown_specifier() {
    let src = sources();
    assert!(load_module_bytes("edge://unknown/mod.ts", &src).is_none());
}

#[test]
fn rewrite_twice_equals_rewrite_once() {
    let input = vec![b't', 0xc3, b'x', b' ', b'\'', b't', b'h', b'u', b'n', b'd', b'e', b'r', b':', b'h', b't', b't', b'p', b'\''];
    let once = rewrite_edge_assert_imports(input);
    let twice = rewrite_edge_assert_imports(once.clone());
    assert_eq!(twice, once);
    assert_eq!(String::from_utf8(once).expect("utf8"), "t\u{FFFD}x 'edge://http/mod.ts'");
}
