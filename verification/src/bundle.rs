//! Routed-app route discovery for the `bundle` command: turning the files of
//! a `functions/` directory into route paths (`[id]` becomes `:id`,
//! `[...rest]` becomes `*`, `index` names the directory itself).
//!
//! A path is handed in as text with `/` between its components, and read as
//! `Path::components` reads it: empty pieces (from doubled or trailing
//! separators) and `.` pieces after the first are not components.

use vstd::prelude::*;

use crate::text::{
    chars_of, ends_with_chars, has_prefix, has_suffix, join_on, join_with, path_components,
    path_components_of, slice_chars, starts_with_chars, string_of, views,
};
use crate::check::{ascending, holds_path, sort_paths, string_views};
use crate::types::{ManifestRoute, ManifestRouteKind};

verus! {

/// Output format of the `bundle` command.
#[derive(Debug, Clone, Copy, PartialEq, Eq)]
pub enum BundleOutputFormat {
    /// Standard ESZIP package.
    Eszip,
    /// Snapshot-flavor envelope with ESZIP fallback.
    Snapshot,
}

/// Arguments of the `bundle` command.
#[derive(Debug)]
pub struct BundleArgs {
    /// Entrypoint TypeScript/JavaScript file.
    pub entrypoint: String,
    /// Output bundle file path.
    pub output: String,
    /// Bundle output format.
    pub format: BundleOutputFormat,
    /// Optional function manifest (v2) file path.
    pub manifest: Option<String>,
}

/// Why a route could not be derived from a file path.
#[derive(Debug, Clone, PartialEq, Eq)]
pub enum RouteError {
    /// The path has no component at all.
    EmptyRoutePath,
    /// The last component has no file stem (`.` or `..`).
    InvalidRouteFileName,
}

impl RouteError {
    /// The message the command prints for this error.
    pub fn message(&self) -> (m: String)
        ensures
            m@ == route_error_text(*self),
    {
        match self {
            RouteError::EmptyRoutePath => "empty route path".to_string(),
            RouteError::InvalidRouteFileName => "invalid route file name".to_string(),
        }
    }
}

pub open spec fn route_error_text(e: RouteError) -> Seq<char> {
    match e {
        RouteError::EmptyRoutePath => "empty route path"@,
        RouteError::InvalidRouteFileName => "invalid route file name"@,
    }
}

/// The route segment a path segment stands for: `[[name]]` and `[name]` give
/// `:name`, `[...name]` gives `*`, anything else stays as it is.
pub open spec fn route_segment(s: Seq<char>) -> Seq<char> {
    if s.len() >= 4 && has_prefix(s, seq!['[', '[']) && has_suffix(s, seq![']', ']']) {
        seq![':'] + s.subrange(2, s.len() - 2)
    } else if s.len() >= 2 && s[0] == '[' && s[s.len() - 1] == ']' {
        let rest = s.subrange(1, s.len() - 1);
        if has_prefix(rest, seq!['.', '.', '.']) {
            seq!['*']
        } else {
            seq![':'] + rest
        }
    } else {
        s
    }
}

/// Index of the last `c` in `s`, if any.
pub open spec fn last_index_of(s: Seq<char>, c: char) -> Option<int>
    decreases s.len(),
{
    if s.len() == 0 {
        None
    } else if s.last() == c {
        Some(s.len() - 1)
    } else {
        last_index_of(s.drop_last(), c)
    }
}

/// The file stem of a component, as `Path::file_stem` gives it: none for the
/// root `/`, `.` and `..`; the whole name when it has no dot or its only dot
/// leads; otherwise what precedes the last dot.
pub open spec fn file_stem(name: Seq<char>) -> Option<Seq<char>> {
    if name == seq!['/'] || name == seq!['.'] || name == seq!['.', '.'] {
        None
    } else {
        match last_index_of(name, '.') {
            None => Some(name),
            Some(i) => if i == 0 { Some(name) } else { Some(name.take(i)) },
        }
    }
}

/// The components of a path.
pub open spec fn components(path: Seq<char>) -> Seq<Seq<char>> {
    path_components(path)
}

/// The route a file at relative path `path` serves.
pub open spec fn route_for(path: Seq<char>) -> Result<Seq<char>, RouteError> {
    let comps = components(path);
    if comps.len() == 0 {
        Err(RouteError::EmptyRoutePath)
    } else {
        let dirs = comps.drop_last().map_values(|c: Seq<char>| route_segment(c));
        match file_stem(comps.last()) {
            None => Err(RouteError::InvalidRouteFileName),
            Some(stem) => {
                let segments = if stem == seq!['i', 'n', 'd', 'e', 'x'] {
                    dirs
                } else {
                    dirs.push(route_segment(stem))
                };
                if segments.len() == 0 {
                    Ok(seq!['/'])
                } else {
                    Ok(seq!['/'] + join_with(segments, seq!['/']))
                }
            },
        }
    }
}

fn index_of_last(s: &Vec<char>, c: char) -> (r: Option<usize>)
    ensures
        r matches Some(i) ==> last_index_of(s@, c) == Some(i as int) && i < s.len(),
        r is None ==> last_index_of(s@, c) is None,
{
    let mut i = s.len();
    proof {
        assert(s@.take(i as int) == s@);
    }
    while i > 0
        invariant
            i <= s.len(),
            last_index_of(s@, c) == last_index_of(s@.take(i as int), c),
        decreases i,
    {
        proof {
            assert(s@.take(i as int).drop_last() == s@.take(i - 1));
        }
        if s[i - 1] == c {
            return Some(i - 1);
        }
        i = i - 1;
    }
    None
}

/// The stem of the file name `name`.
fn stem_of(name: &Vec<char>) -> (r: Option<Vec<char>>)
    ensures
        r matches Some(v) ==> file_stem(name@) == Some(v@),
        r is None ==> file_stem(name@) is None,
{
    let is_root = name.len() == 1 && name[0] == '/';
    let is_dot = name.len() == 1 && name[0] == '.';
    let is_dotdot = name.len() == 2 && name[0] == '.' && name[1] == '.';
    proof {
        if name@ == seq!['/'] { assert(is_root); }
        if name@ == seq!['.'] { assert(is_dot); }
        if name@ == seq!['.', '.'] { assert(is_dotdot); }
        if is_root { assert(name@ =~= seq!['/']); }
        if is_dot { assert(name@ =~= seq!['.']); }
        if is_dotdot { assert(name@ =~= seq!['.', '.']); }
    }
    if is_root || is_dot || is_dotdot {
        return None;
    }
    match index_of_last(name, '.') {
        None => Some(slice_chars(name, 0, name.len())),
        Some(i) => {
            if i == 0 {
                Some(slice_chars(name, 0, name.len()))
            } else {
                Some(slice_chars(name, 0, i))
            }
        },
    }
}

fn route_segment_of(s: &Vec<char>) -> (r: Vec<char>)
    ensures
        r@ == route_segment(s@),
{
    let open2: Vec<char> = vec!['[', '['];
    let close2: Vec<char> = vec![']', ']'];
    if s.len() >= 4 && starts_with_chars(s, &open2) && ends_with_chars(s, &close2) {
        let mut r: Vec<char> = vec![':'];
        let inner = slice_chars(s, 2, s.len() - 2);
        let mut k: usize = 0;
        while k < inner.len()
            invariant
                k <= inner.len(),
                r@ == seq![':'] + inner@.take(k as int),
            decreases inner.len() - k,
        {
            r.push(inner[k]);
            proof {
                assert(inner@.take(k + 1) == inner@.take(k as int).push(inner@[k as int]));
            }
            k = k + 1;
        }
        proof {
            assert(inner@.take(inner.len() as int) == inner@);
            assert(open2@ =~= seq!['[', '[']);
            assert(close2@ =~= seq![']', ']']);
        }
        return r;
    }
    proof {
        assert(open2@ =~= seq!['[', '[']);
        assert(close2@ =~= seq![']', ']']);
    }
    if s.len() >= 2 && s[0] == '[' && s[s.len() - 1] == ']' {
        let rest = slice_chars(s, 1, s.len() - 1);
        let dots: Vec<char> = vec!['.', '.', '.'];
        proof {
            assert(dots@ =~= seq!['.', '.', '.']);
        }
        if starts_with_chars(&rest, &dots) {
            let star: Vec<char> = vec!['*'];
            proof {
                assert(star@ =~= seq!['*']);
            }
            return star;
        }
        let mut r: Vec<char> = vec![':'];
        let mut k: usize = 0;
        while k < rest.len()
            invariant
                k <= rest.len(),
                r@ == seq![':'] + rest@.take(k as int),
            decreases rest.len() - k,
        {
            r.push(rest[k]);
            proof {
                assert(rest@.take(k + 1) == rest@.take(k as int).push(rest@[k as int]));
            }
            k = k + 1;
        }
        proof {
            assert(rest@.take(rest.len() as int) == rest@);
        }
        return r;
    }
    slice_chars(s, 0, s.len())
}

/// The route segment for one path segment.
pub fn convert_route_segment(segment: &str) -> (r: String)
    ensures
        r@ == route_segment(segment@),
{
    let cs = chars_of(segment);
    let out = route_segment_of(&cs);
    string_of(&out)
}

/// The route served by the file at relative path `path`.
pub fn file_path_to_route(path: &str) -> (r: Result<String, RouteError>)
    ensures
        match (r, route_for(path@)) {
            (Ok(s), Ok(t)) => s@ == t,
            (Err(e), Err(f)) => e == f,
            _ => false,
        },
{
    let cs = chars_of(path);
    let comps = path_components_of(&cs);
    if comps.len() == 0 {
        return Err(RouteError::EmptyRoutePath);
    }
    let ghost cv = views(comps@);
    let last_index = comps.len() - 1;
    let mut segments: Vec<Vec<char>> = Vec::new();
    let mut i: usize = 0;
    while i < last_index
        invariant
            last_index == comps.len() - 1,
            cv == views(comps@),
            i <= last_index,
            views(segments@) == cv.take(i as int).map_values(|c: Seq<char>| route_segment(c)),
        decreases last_index - i,
    {
        let seg = route_segment_of(&comps[i]);
        let ghost before = views(segments@);
        segments.push(seg);
        proof {
            assert(views(segments@) =~= before.push(seg@));
            assert(cv.take(i + 1) =~= cv.take(i as int).push(cv[i as int]));
            assert(views(segments@) =~= cv.take(i + 1).map_values(|c: Seq<char>| route_segment(c)));
        }
        i = i + 1;
    }
    proof {
        assert(cv.take(last_index as int) =~= cv.drop_last());
    }
    let stem = match stem_of(&comps[last_index]) {
        Some(s) => s,
        None => {
            return Err(RouteError::InvalidRouteFileName);
        },
    };
    let index_name: Vec<char> = vec!['i', 'n', 'd', 'e', 'x'];
    proof {
        assert(index_name@ =~= seq!['i', 'n', 'd', 'e', 'x']);
    }
    let is_index = stem.len() == 5 && starts_with_chars(&stem, &index_name);
    proof {
        if is_index {
            assert(stem@ =~= index_name@);
        }
        if stem@ == index_name@ {
            assert(stem@.take(5) =~= stem@);
        }
    }
    if !is_index {
        let seg = route_segment_of(&stem);
        let ghost before = views(segments@);
        segments.push(seg);
        proof {
            assert(views(segments@) =~= before.push(seg@));
        }
    }
    if segments.len() == 0 {
        let root: Vec<char> = vec!['/'];
        proof {
            assert(root@ =~= seq!['/']);
        }
        return Ok(string_of(&root));
    }
    let slash: Vec<char> = vec!['/'];
    let joined = join_on(&segments, &slash);
    let mut out: Vec<char> = vec!['/'];
    let mut k: usize = 0;
    while k < joined.len()
        invariant
            k <= joined.len(),
            out@ == seq!['/'] + joined@.take(k as int),
        decreases joined.len() - k,
    {
        out.push(joined[k]);
        proof {
            assert(joined@.take(k + 1) == joined@.take(k as int).push(joined@[k as int]));
        }
        k = k + 1;
    }
    proof {
        assert(joined@.take(joined.len() as int) == joined@);
        assert(slash@ =~= seq!['/']);
    }
    Ok(string_of(&out))
}

/// Extensions of the files that route discovery picks up.
pub open spec fn is_route_source_extension(ext: Seq<char>) -> bool {
    ext == "ts"@ || ext == "tsx"@ || ext == "js"@ || ext == "jsx"@ || ext == "mts"@
        || ext == "mjs"@ || ext == "cts"@ || ext == "cjs"@
}

/// The extension of a file name, as `Path::extension` gives it: what follows
/// the last dot, unless there is no dot, the only dot leads, or the name is
/// `.` or `..`.
pub open spec fn file_extension(name: Seq<char>) -> Option<Seq<char>> {
    if name == seq!['.'] || name == seq!['.', '.'] {
        None
    } else {
        match last_index_of(name, '.') {
            None => None,
            Some(i) => if i == 0 { None } else { Some(name.skip(i + 1)) },
        }
    }
}

/// The extension of the last component of `path`.
pub open spec fn path_extension(path: Seq<char>) -> Option<Seq<char>> {
    let comps = components(path);
    if comps.len() == 0 { None } else { file_extension(comps.last()) }
}

/// The extension of the last component of `path`, if it has one.
pub fn extension_of(path: &str) -> (r: Option<String>)
    ensures
        r matches Some(e) ==> path_extension(path@) == Some(e@),
        r is None ==> path_extension(path@) is None,
{
    let cs = chars_of(path);
    let comps = path_components_of(&cs);
    if comps.len() == 0 {
        return None;
    }
    let name = &comps[comps.len() - 1];
    proof {
        assert(views(comps@).last() == name@);
    }
    let is_dot = name.len() == 1 && name[0] == '.';
    let is_dotdot = name.len() == 2 && name[0] == '.' && name[1] == '.';
    proof {
        if name@ == seq!['.'] { assert(is_dot); }
        if name@ == seq!['.', '.'] { assert(is_dotdot); }
        if is_dot { assert(name@ =~= seq!['.']); }
        if is_dotdot { assert(name@ =~= seq!['.', '.']); }
    }
    if is_dot || is_dotdot {
        return None;
    }
    match index_of_last(name, '.') {
        None => None,
        Some(i) => {
            if i == 0 {
                None
            } else {
                let ext = slice_chars(name, i + 1, name.len());
                proof {
                    assert(ext@ =~= name@.skip(i + 1));
                }
                Some(string_of(&ext))
            }
        },
    }
}

/// Whether text `a` equals text `b`.
pub fn same_text(a: &str, b: &str) -> (r: bool)
    ensures
        r == (a@ == b@),
{
    a.to_owned() == b.to_owned()
}

/// Whether route discovery picks up the file at `path` (by its extension).
pub fn is_route_source_file(path: &str) -> (r: bool)
    ensures
        r == (path_extension(path@) matches Some(e) && is_route_source_extension(e)),
{
    match extension_of(path) {
        None => false,
        Some(e) => {
            let e = e.as_str();
            same_text(e, "ts") || same_text(e, "tsx") || same_text(e, "js") || same_text(e, "jsx")
                || same_text(e, "mts") || same_text(e, "mjs") || same_text(e, "cts")
                || same_text(e, "cjs")
        },
    }
}

/// The entrypoint a route file is referred to by: `./` and the relative
/// path, with backslashes turned into slashes.
pub open spec fn route_entrypoint(relative: Seq<char>) -> Seq<char> {
    seq!['.', '/'] + relative.map_values(|c: char| if c == '\\' { '/' } else { c })
}

/// The function route generated for a file at `relative` (relative to the
/// functions directory), if a route can be derived.
pub open spec fn generated_route(relative: Seq<char>, route: ManifestRoute) -> bool {
    &&& route.kind == ManifestRouteKind::Function
    &&& route_for(relative) matches Ok(p) && route.path@ == p
    &&& route.methods.len() == 0
    &&& route.entrypoint matches Some(e) && e@ == route_entrypoint(relative)
    &&& route.asset_dir is None
}

/// Function routes for the given route files (relative to the functions
/// directory, in the order they are listed): the first file whose route
/// cannot be derived stops the scan with its error.
pub fn discover_function_routes(relative_files: &Vec<String>) -> (r: Result<Vec<ManifestRoute>, RouteError>)
    ensures
        match r {
            Ok(routes) => {
                &&& routes.len() == relative_files.len()
                &&& forall|i: int| 0 <= i < routes.len() ==> generated_route(#[trigger] relative_files[i]@, routes[i])
            },
            Err(e) => exists|i: int| 0 <= i < relative_files.len()
                && route_for(#[trigger] relative_files[i]@) == Err::<Seq<char>, RouteError>(e)
                && forall|j: int| 0 <= j < i ==> route_for(#[trigger] relative_files[j]@) is Ok,
        },
{
    let mut routes: Vec<ManifestRoute> = Vec::new();
    let mut i: usize = 0;
    while i < relative_files.len()
        invariant
            i <= relative_files.len(),
            routes.len() == i,
            forall|k: int| 0 <= k < i ==> generated_route(#[trigger] relative_files[k]@, routes[k]),
            forall|k: int| 0 <= k < i ==> route_for(#[trigger] relative_files[k]@) is Ok,
        decreases relative_files.len() - i,
    {
        let rel = relative_files[i].as_str();
        let path = match file_path_to_route(rel) {
            Ok(p) => p,
            Err(e) => {
                return Err(e);
            },
        };
        let cs = chars_of(rel);
        let mut entry: Vec<char> = vec!['.', '/'];
        let mut k: usize = 0;
        while k < cs.len()
            invariant
                k <= cs.len(),
                entry@ == seq!['.', '/'] + cs@.take(k as int).map_values(|c: char| if c == '\\' { '/' } else { c }),
            decreases cs.len() - k,
        {
            let c = cs[k];
            entry.push(if c == '\\' { '/' } else { c });
            proof {
                assert(cs@.take(k + 1) == cs@.take(k as int).push(c));
                assert(cs@.take(k + 1).map_values(|c: char| if c == '\\' { '/' } else { c })
                    =~= cs@.take(k as int).map_values(|c: char| if c == '\\' { '/' } else { c }).push(
                        if c == '\\' { '/' } else { c }));
            }
            k = k + 1;
        }
        proof {
            assert(cs@.take(cs.len() as int) == cs@);
        }
        let route = ManifestRoute {
            kind: ManifestRouteKind::Function,
            path,
            methods: Vec::new(),
            entrypoint: Some(string_of(&entry)),
            asset_dir: None,
        };
        let ghost before = routes@;
        routes.push(route);
        proof {
            assert forall|k: int| 0 <= k < i + 1 implies generated_route(#[trigger] relative_files[k]@, routes[k]) by {
                if k < i {
                    assert(routes[k] == before[k]);
                }
            }
        }
        i = i + 1;
    }
    Ok(routes)
}

/// Where the routed-app scan looks for route files.
#[derive(Debug, Clone, Copy, PartialEq, Eq)]
pub enum FunctionsDirChoice {
    /// The entrypoint already sits in a directory named `functions`.
    EntrypointDir,
    /// The `functions` directory next to the entrypoint.
    SiblingFunctionsDir,
}

/// Why the routed-app routes could not be generated.
#[derive(Debug, Clone, PartialEq, Eq)]
pub enum RoutedManifestError {
    /// The entrypoint has no parent directory.
    NoParentDirectory,
    /// There is no `functions/` directory to scan.
    MissingFunctionsDir,
    /// The scan found no route file.
    NoRouteFiles,
    /// A route file's route could not be derived.
    Route(RouteError),
}

/// Which directory the scan uses, from the entrypoint's parent directory name
/// (`None` when there is no parent) and whether `functions/` exists beside it.
pub fn resolve_functions_dir(parent_name: Option<&str>, has_parent: bool, sibling_functions_is_dir: bool)
    -> (r: Result<FunctionsDirChoice, RoutedManifestError>)
    ensures
        !has_parent ==> r == Err::<FunctionsDirChoice, RoutedManifestError>(RoutedManifestError::NoParentDirectory),
        has_parent && (parent_name matches Some(n) && n@ == "functions"@)
            ==> r == Ok::<FunctionsDirChoice, RoutedManifestError>(FunctionsDirChoice::EntrypointDir),
        has_parent && !(parent_name matches Some(n) && n@ == "functions"@) && sibling_functions_is_dir
            ==> r == Ok::<FunctionsDirChoice, RoutedManifestError>(FunctionsDirChoice::SiblingFunctionsDir),
        has_parent && !(parent_name matches Some(n) && n@ == "functions"@) && !sibling_functions_is_dir
            ==> r == Err::<FunctionsDirChoice, RoutedManifestError>(RoutedManifestError::MissingFunctionsDir),
{
    if !has_parent {
        return Err(RoutedManifestError::NoParentDirectory);
    }
    let named_functions = match parent_name {
        Some(n) => same_text(n, "functions"),
        None => false,
    };
    if named_functions {
        return Ok(FunctionsDirChoice::EntrypointDir);
    }
    if sibling_functions_is_dir {
        Ok(FunctionsDirChoice::SiblingFunctionsDir)
    } else {
        Err(RoutedManifestError::MissingFunctionsDir)
    }
}

/// The routes to write into a routed-app manifest whose `routes` list is
/// empty: `None` when the manifest is not routed-app or already lists routes,
/// otherwise the routes of the scanned files (which must not be none), in
/// ascending path order, each path once.
pub fn routes_for_manifest(is_routed_app: bool, has_routes: bool, relative_files: &Vec<String>)
    -> (r: Option<Result<Vec<ManifestRoute>, RoutedManifestError>>)
    ensures
        (!is_routed_app || has_routes) <==> r is None,
        r matches Some(Ok(routes)) ==> exists|fs: Seq<String>| {
            &&& ascending(string_views(fs))
            &&& forall|s: Seq<char>| #[trigger] string_views(fs).contains(s)
                ==> string_views(relative_files@).contains(s)
            &&& forall|s: Seq<char>| #[trigger] string_views(relative_files@).contains(s)
                ==> holds_path(string_views(fs), s)
            &&& fs.len() > 0
            &&& routes.len() == fs.len()
            &&& forall|i: int| 0 <= i < routes.len() ==> generated_route(#[trigger] fs[i]@, routes[i])
        },
        r matches Some(Err(e)) ==> (e == RoutedManifestError::NoRouteFiles && relative_files.len() == 0)
            || (e matches RoutedManifestError::Route(re) && exists|i: int| 0 <= i < relative_files.len()
                && route_for(#[trigger] relative_files[i]@) == Err::<Seq<char>, RouteError>(re)),
        is_routed_app && !has_routes && relative_files.len() == 0
            ==> r == Some(Err::<Vec<ManifestRoute>, RoutedManifestError>(RoutedManifestError::NoRouteFiles)),
{
    if !is_routed_app || has_routes {
        return None;
    }
    let sorted = sort_paths(relative_files);
    proof {
        if relative_files.len() == 0 {
            if sorted.len() > 0 {
                assert(string_views(sorted@)[0] == sorted@[0]@);
                assert(string_views(sorted@).contains(sorted@[0]@));
            }
        } else {
            assert(string_views(relative_files@)[0] == relative_files@[0]@);
            assert(string_views(relative_files@).contains(relative_files@[0]@));
            assert(holds_path(string_views(sorted@), relative_files@[0]@));
        }
    }
    match discover_function_routes(&sorted) {
        Ok(routes) => {
            if routes.len() == 0 {
                Some(Err(RoutedManifestError::NoRouteFiles))
            } else {
                Some(Ok(routes))
            }
        },
        Err(e) => {
            proof {
                let j = choose|j: int| 0 <= j < sorted.len()
                    && route_for(#[trigger] sorted@[j]@) == Err::<Seq<char>, RouteError>(e)
                    && forall|k: int| 0 <= k < j ==> route_for(#[trigger] sorted@[k]@) is Ok;
                assert(string_views(sorted@)[j] == sorted@[j]@);
                assert(string_views(sorted@).contains(sorted@[j]@));
                let i = choose|i: int| 0 <= i < relative_files.len() && #[trigger] string_views(relative_files@)[i] == sorted@[j]@;
                assert(relative_files@[i]@ == sorted@[j]@);
            }
            Some(Err(RoutedManifestError::Route(e)))
        },
    }
}

/// Extensions whose entrypoint is type-checked before bundling.
pub open spec fn is_typed_extension(ext: Seq<char>) -> bool {
    ext == "ts"@ || ext == "mts"@ || ext == "cts"@ || ext == "tsx"@
}

/// Whether the entrypoint at `path` is type-checked before bundling (a
/// TypeScript extension).
pub fn needs_typecheck(path: &str) -> (r: bool)
    ensures
        r == (path_extension(path@) matches Some(e) && is_typed_extension(e)),
{
    match extension_of(path) {
        None => false,
        Some(e) => {
            let e = e.as_str();
            same_text(e, "ts") || same_text(e, "mts") || same_text(e, "cts") || same_text(e, "tsx")
        },
    }
}

} // verus!
