use thunder::bundle::{
    convert_route_segment, discover_function_routes, file_path_to_route, is_route_source_file,
    resolve_functions_dir, routes_for_manifest, FunctionsDirChoice, RouteError, RoutedManifestError,
};
use thunder::types::ManifestRouteKind;

#[test]
fn bundle_route_from_index_file_is_root() {
    let route = file_path_to_route("index.ts").expect("route");
    assert_eq!(route, "/");
}

#[test]
fn bundle_route_from_dynamic_segments_is_normalized() {
    let route = file_path_to_route("api/users/[id]/posts.ts").expect("route");
    assert_eq!(route, "/api/users/:id/posts");
}

#[test]
fn bundle_test_route_from_index_file_is_root() {
    let route = file_path_to_route("index.ts").expect("route");
    assert_eq!(route, "/");
}

#[test]
fn bundle_test_route_from_dynamic_segments_is_normalized() {
    let route = file_path_to_route("api/users/[id]/posts.ts").expect("route");
    assert_eq!(route, "/api/users/:id/posts");
}

#[test]
fn route_segments_convert_brackets() {
    assert_eq!(convert_route_segment("[id]"), ":id");
    assert_eq!(convert_route_segment("[[opt]]"), ":opt");
    assert_eq!(convert_route_segment("[...all]"), "*");
    assert_eq!(convert_route_segment("plain"), "plain");
}

#[test]
fn nested_index_maps_to_its_directory() {
    assert_eq!(file_path_to_route("users/index.ts").expect("route"), "/users");
    assert_eq!(file_path_to_route("[...all].ts").expect("route"), "/*");
}

#[test]
fn route_errors_for_empty_and_dot_paths() {
    assert_eq!(file_path_to_route(""), Err(RouteError::EmptyRoutePath));
    assert_eq!(file_path_to_route(".."), Err(RouteError::InvalidRouteFileName));
    assert_eq!(RouteError::EmptyRoutePath.message(), "empty route path");
    assert_eq!(RouteError::InvalidRouteFileName.message(), "invalid route file name");
}

#[test]
fn route_source_files_are_ts_and_js() {
    assert!(is_route_source_file("a/b.ts"));
    assert!(is_route_source_file("a/b.js"));
    assert!(!is_route_source_file("a/b.css"));
}

#[test]
fn discovered_routes_point_at_their_files() {
    let files = vec!["index.ts".to_string(), "users/[id].ts".to_string()];
    let routes = discover_function_routes(&files).expect("routes");
    assert_eq!(routes.len(), 2);
    assert_eq!(routes[0].path, "/");
    assert_eq!(routes[1].path, "/users/:id");
    assert_eq!(routes[1].kind, ManifestRouteKind::Function);
    assert_eq!(routes[1].entrypoint.as_deref(), Some("./users/[id].ts"));
}

#[test]
fn functions_dir_resolution() {
    assert_eq!(resolve_functions_dir(Some("functions"), true, false), Ok(FunctionsDirChoice::EntrypointDir));
    assert_eq!(resolve_functions_dir(Some("app"), true, true), Ok(FunctionsDirChoice::SiblingFunctionsDir));
    assert_eq!(resolve_functions_dir(Some("app"), true, false), Err(RoutedManifestError::MissingFunctionsDir));
    assert_eq!(resolve_functions_dir(None, false, true), Err(RoutedManifestError::NoParentDirectory));
}

#[test]
fn manifest_routes_only_for_routed_app_without_routes() {
    let files: Vec<String> = vec![];
    assert!(routes_for_manifest(false, false, &files).is_none());
    assert!(routes_for_manifest(true, true, &files).is_none());
    assert!(matches!(routes_for_manifest(true, false, &files), Some(Err(RoutedManifestError::NoRouteFiles))));
}

#[test]
fn typescript_entrypoints_are_typechecked() {
    assert!(thunder::bundle::needs_typecheck("./functions/index.ts"));
    assert!(thunder::bundle::needs_typecheck("a.tsx"));
    assert!(!thunder::bundle::needs_typecheck("a.js"));
    assert!(!thunder::bundle::needs_typecheck("Makefile"));
}

#[test]
fn manifest_routes_come_in_path_order() {
    let files = vec!["users/[id].ts".to_string(), "index.ts".to_string()];
    let routes = match routes_for_manifest(true, false, &files) {
        Some(Ok(r)) => r,
        _ => panic!("routes expected"),
    };
    assert_eq!(routes.len(), 2);
    assert_eq!(routes[0].path, "/");
    assert_eq!(routes[1].path, "/users/:id");
}

#[test]
fn route_reads_path_components_like_std() {
    assert_eq!(file_path_to_route("a/./b.ts").unwrap(), "/a/b");
    assert_eq!(file_path_to_route("a//b.ts").unwrap(), "/a/b");
    assert_eq!(file_path_to_route("./a.ts").unwrap(), "/./a");
    assert_eq!(file_path_to_route("a/b.ts/.").unwrap(), "/a/b");
    assert!(matches!(file_path_to_route("/"), Err(RouteError::InvalidRouteFileName)));
    assert!(is_route_source_file("a/b.ts/."));
}
