//! The `check` command's selection of source files: which candidates are
//! type-checked, which are ignored, and in what order.

use vstd::prelude::*;

use crate::bundle::{is_route_source_extension, is_route_source_file, path_extension};
use crate::text::{
    chars_of, concat3, contains_char, equal_chars, path_components, path_components_of, views,
};

verus! {

/// Arguments of the `check` command.
#[derive(Debug)]
pub struct CheckArgs {
    /// Path, directory or glob pattern.
    pub path: String,
    /// Ignore paths or patterns.
    pub ignore: Vec<String>,
}

/// Why `check` has nothing to check.
#[derive(Debug, Clone, PartialEq, Eq)]
pub enum CheckError {
    /// An ignore pattern is not a valid glob.
    InvalidIgnorePattern(String),
    /// No source file is left after filtering.
    NoSourceFiles,
}

pub open spec fn check_error_text(e: CheckError, path: Seq<char>, ignore_debug: Seq<char>) -> Seq<char> {
    match e {
        CheckError::InvalidIgnorePattern(p) => "invalid ignore pattern '"@ + p@ + "'"@,
        CheckError::NoSourceFiles => "no source files found for '"@ + path + "' (ignore: "@ + ignore_debug + ")"@,
    }
}

impl CheckError {
    /// The message `check` fails with for arguments `path` and the ignore
    /// list, given as its `Debug` text.
    pub fn message(&self, path: &str, ignore_debug: &str) -> (m: String)
        ensures
            m@ == check_error_text(*self, path@, ignore_debug@),
    {
        match self {
            CheckError::InvalidIgnorePattern(p) => concat3("invalid ignore pattern '", p.as_str(), "'"),
            CheckError::NoSourceFiles => {
                let head = concat3("no source files found for '", path, "' (ignore: ");
                concat3(head.as_str(), ignore_debug, ")")
            },
        }
    }
}

/// The argument is a glob pattern rather than a plain path.
pub open spec fn is_glob(input: Seq<char>) -> bool {
    input.contains('*') || input.contains('?') || input.contains('[') || input.contains('{')
}

/// Whether `input` holds one of `*`, `?`, `[`, `{`.
pub fn is_glob_pattern(input: &str) -> (r: bool)
    ensures
        r == is_glob(input@),
{
    let cs = chars_of(input);
    contains_char(&cs, '*') || contains_char(&cs, '?') || contains_char(&cs, '[') || contains_char(&cs, '{')
}

/// The extensions `check` accepts: ts, js, mts, mjs, tsx, jsx, cjs, cts.
pub open spec fn is_supported_source(path: Seq<char>) -> bool {
    path_extension(path) matches Some(e) && is_route_source_extension(e)
}

/// Whether the file at `path` has a supported source extension.
pub fn is_supported_source_file(path: &str) -> (r: bool)
    ensures
        r == is_supported_source(path@),
{
    is_route_source_file(path)
}

/// What `glob::Pattern` decides: `None` when `pattern` is not a valid glob,
/// otherwise whether it matches `text`.
pub uninterp spec fn glob_match(pattern: Seq<char>, text: Seq<char>) -> Option<bool>;

/// `glob::Pattern::new(pattern)` then `matches(text)`; `None` when the
/// pattern is invalid. What the match means is left to the name.
#[verifier::external_body]
fn glob_matches(pattern: &str, text: &str) -> (r: Option<bool>)
    ensures
        r == glob_match(pattern@, text@),
{
    match glob::Pattern::new(pattern) {
        Ok(p) => Some(p.matches(text)),
        Err(_) => None,
    }
}

/// What `Path::strip_prefix` gives: `path` relative to `base`, or `None`
/// when `base` is not a prefix of it (component-wise).
pub uninterp spec fn path_strip_prefix(path: Seq<char>, base: Seq<char>) -> Option<Seq<char>>;

/// `std::path::Path::strip_prefix`, as text.
#[verifier::external_body]
fn strip_path_prefix(path: &str, base: &str) -> (r: Option<String>)
    ensures
        r is None ==> path_strip_prefix(path@, base@) is None,
        r matches Some(s) ==> path_strip_prefix(path@, base@) == Some(s@),
{
    match std::path::Path::new(path).strip_prefix(base) {
        Ok(rel) => Some(rel.to_string_lossy().into_owned()),
        Err(_) => None,
    }
}

/// `path` relative to `cwd` when it lies under it, else `path` itself.
pub open spec fn relative_to(path: Seq<char>, cwd: Seq<char>) -> Seq<char> {
    match path_strip_prefix(path, cwd) {
        Some(r) => r,
        None => path,
    }
}

/// A pattern ignores `path`: it matches the path, the path relative to
/// `cwd`, or that relative path with `./` in front.
pub open spec fn pattern_ignores(pattern: Seq<char>, path: Seq<char>, cwd: Seq<char>) -> bool {
    glob_match(pattern, path) == Some(true)
        || glob_match(pattern, relative_to(path, cwd)) == Some(true)
        || glob_match(pattern, "./"@ + relative_to(path, cwd)) == Some(true)
}

/// Some pattern ignores `path`.
pub open spec fn ignored(patterns: Seq<String>, path: Seq<char>, cwd: Seq<char>) -> bool {
    exists|i: int| 0 <= i < patterns.len() && #[trigger] pattern_ignores(patterns[i]@, path, cwd)
}

/// An ignore pattern that glob-matches the path as given ignores it,
/// whatever the working directory and the other patterns; so does one that
/// matches the path relative to the working directory, with or without
/// `./` in front. A path is ignored only through one of these three forms.
pub proof fn lemma_ignore_forms(patterns: Seq<String>, path: Seq<char>, cwd: Seq<char>, i: int)
    requires
        0 <= i < patterns.len(),
    ensures
        glob_match(patterns[i]@, path) == Some(true) ==> ignored(patterns, path, cwd),
        glob_match(patterns[i]@, relative_to(path, cwd)) == Some(true) ==> ignored(patterns, path, cwd),
        glob_match(patterns[i]@, "./"@ + relative_to(path, cwd)) == Some(true) ==> ignored(patterns, path, cwd),
        ignored(patterns, path, cwd) ==> exists|j: int| 0 <= j < patterns.len() && {
            ||| glob_match(#[trigger] patterns[j]@, path) == Some(true)
            ||| glob_match(patterns[j]@, relative_to(path, cwd)) == Some(true)
            ||| glob_match(patterns[j]@, "./"@ + relative_to(path, cwd)) == Some(true)
        },
        patterns.len() == 0 ==> !ignored(patterns, path, cwd),
{
    if glob_match(patterns[i]@, path) == Some(true)
        || glob_match(patterns[i]@, relative_to(path, cwd)) == Some(true)
        || glob_match(patterns[i]@, "./"@ + relative_to(path, cwd)) == Some(true) {
        assert(pattern_ignores(patterns[i]@, path, cwd));
    }
    if ignored(patterns, path, cwd) {
        let j = choose|j: int| 0 <= j < patterns.len() && #[trigger] pattern_ignores(patterns[j]@, path, cwd);
        assert(glob_match(patterns[j]@, path) == Some(true)
            || glob_match(patterns[j]@, relative_to(path, cwd)) == Some(true)
            || glob_match(patterns[j]@, "./"@ + relative_to(path, cwd)) == Some(true));
    }
}

/// Whether one of `patterns` ignores `path`.
pub fn matches_ignore(path: &str, cwd: &str, patterns: &Vec<String>) -> (r: bool)
    ensures
        r == ignored(patterns@, path@, cwd@),
{
    if patterns.len() == 0 {
        return false;
    }
    let relative = match strip_path_prefix(path, cwd) {
        Some(r) => r,
        None => path.to_string(),
    };
    proof {
        reveal_strlit("./");
        reveal_strlit("");
    }
    let with_dot = concat3("./", relative.as_str(), "");
    proof {
        assert(with_dot@ =~= "./"@ + relative_to(path@, cwd@));
    }
    let mut i: usize = 0;
    while i < patterns.len()
        invariant
            i <= patterns.len(),
            relative@ == relative_to(path@, cwd@),
            with_dot@ == "./"@ + relative_to(path@, cwd@),
            forall|j: int| 0 <= j < i ==> !#[trigger] pattern_ignores(patterns@[j]@, path@, cwd@),
        decreases patterns.len() - i,
    {
        let p = patterns[i].as_str();
        let a = glob_matches(p, path);
        let b = glob_matches(p, relative.as_str());
        let c = glob_matches(p, with_dot.as_str());
        if a == Some(true) || b == Some(true) || c == Some(true) {
            proof {
                assert(pattern_ignores(patterns@[i as int]@, path@, cwd@));
            }
            return true;
        }
        i = i + 1;
    }
    false
}

/// `a` sorts before `b` character by character, by code point; a proper
/// prefix comes first.
pub open spec fn text_less(a: Seq<char>, b: Seq<char>) -> bool
    decreases a.len(),
{
    if a.len() == 0 {
        b.len() > 0
    } else if b.len() == 0 {
        false
    } else if a[0] != b[0] {
        a[0] < b[0]
    } else {
        text_less(a.skip(1), b.skip(1))
    }
}

/// Where a component stands in `Path`'s order: the root, then `.`, then
/// `..`, then every name.
pub open spec fn component_rank(c: Seq<char>) -> int {
    if c == seq!['/'] {
        0
    } else if c == seq!['.'] {
        1
    } else if c == seq!['.', '.'] {
        2
    } else {
        3
    }
}

/// Component `a` sorts before component `b`.
pub open spec fn component_less(a: Seq<char>, b: Seq<char>) -> bool {
    if component_rank(a) != component_rank(b) {
        component_rank(a) < component_rank(b)
    } else {
        text_less(a, b)
    }
}

/// Component list `a` sorts before `b`: at the first component that
/// differs, or a proper prefix first.
pub open spec fn components_less(a: Seq<Seq<char>>, b: Seq<Seq<char>>) -> bool
    decreases a.len(),
{
    if a.len() == 0 {
        b.len() > 0
    } else if b.len() == 0 {
        false
    } else if a[0] != b[0] {
        component_less(a[0], b[0])
    } else {
        components_less(a.skip(1), b.skip(1))
    }
}

/// The order `Path` sorts in: component by component.
pub open spec fn path_less(a: Seq<char>, b: Seq<char>) -> bool {
    components_less(path_components(a), path_components(b))
}

/// `a` and `b` name the same path: they have the same components.
pub open spec fn same_path(a: Seq<char>, b: Seq<char>) -> bool {
    path_components(a) == path_components(b)
}

proof fn lemma_text_less_total(a: Seq<char>, b: Seq<char>)
    ensures
        a == b || text_less(a, b) || text_less(b, a),
        !(text_less(a, b) && text_less(b, a)),
    decreases a.len(),
{
    if a.len() > 0 && b.len() > 0 && a[0] == b[0] {
        lemma_text_less_total(a.skip(1), b.skip(1));
        if a.skip(1) == b.skip(1) {
            assert(a =~= seq![a[0]] + a.skip(1));
            assert(b =~= seq![b[0]] + b.skip(1));
        }
    }
    if a.len() == 0 && b.len() == 0 {
        assert(a =~= b);
    }
}

proof fn lemma_component_less_total(a: Seq<char>, b: Seq<char>)
    ensures
        a == b || component_less(a, b) || component_less(b, a),
        !(component_less(a, b) && component_less(b, a)),
{
    lemma_text_less_total(a, b);
}

proof fn lemma_components_less_total(a: Seq<Seq<char>>, b: Seq<Seq<char>>)
    ensures
        a == b || components_less(a, b) || components_less(b, a),
        !(components_less(a, b) && components_less(b, a)),
    decreases a.len(),
{
    if a.len() > 0 && b.len() > 0 {
        if a[0] == b[0] {
            lemma_components_less_total(a.skip(1), b.skip(1));
            if a.skip(1) == b.skip(1) {
                assert(a =~= seq![a[0]] + a.skip(1));
                assert(b =~= seq![b[0]] + b.skip(1));
            }
        } else {
            lemma_component_less_total(a[0], b[0]);
        }
    }
    if a.len() == 0 && b.len() == 0 {
        assert(a =~= b);
    }
}

/// Any two paths are the same path or one sorts before the other, and not
/// both ways.
pub proof fn lemma_path_less_total(a: Seq<char>, b: Seq<char>)
    ensures
        same_path(a, b) || path_less(a, b) || path_less(b, a),
        !(path_less(a, b) && path_less(b, a)),
        same_path(a, b) ==> !path_less(a, b),
{
    lemma_components_less_total(path_components(a), path_components(b));
    lemma_components_less_total(path_components(a), path_components(a));
}

fn text_less_exec(a: &Vec<char>, b: &Vec<char>) -> (r: bool)
    ensures
        r == text_less(a@, b@),
{
    let mut i: usize = 0;
    proof {
        assert(a@.skip(0) =~= a@);
        assert(b@.skip(0) =~= b@);
    }
    while i < a.len() && i < b.len()
        invariant
            i <= a.len(),
            i <= b.len(),
            text_less(a@, b@) == text_less(a@.skip(i as int), b@.skip(i as int)),
        decreases a.len() - i,
    {
        let x = a[i];
        let y = b[i];
        proof {
            assert(a@.skip(i as int)[0] == x);
            assert(b@.skip(i as int)[0] == y);
        }
        if x != y {
            return x < y;
        }
        proof {
            assert(a@.skip(i as int).skip(1) =~= a@.skip(i + 1));
            assert(b@.skip(i as int).skip(1) =~= b@.skip(i + 1));
        }
        i = i + 1;
    }
    i < b.len()
}

fn rank_of(c: &Vec<char>) -> (r: u8)
    ensures
        r == component_rank(c@),
{
    let is_root = c.len() == 1 && c[0] == '/';
    let is_dot = c.len() == 1 && c[0] == '.';
    let is_dotdot = c.len() == 2 && c[0] == '.' && c[1] == '.';
    proof {
        if c@ == seq!['/'] { assert(is_root); }
        if c@ == seq!['.'] { assert(is_dot); }
        if c@ == seq!['.', '.'] { assert(is_dotdot); }
        if is_root { assert(c@ =~= seq!['/']); }
        if is_dot { assert(c@ =~= seq!['.']); }
        if is_dotdot { assert(c@ =~= seq!['.', '.']); }
    }
    if is_root {
        0
    } else if is_dot {
        1
    } else if is_dotdot {
        2
    } else {
        3
    }
}

fn component_less_exec(a: &Vec<char>, b: &Vec<char>) -> (r: bool)
    ensures
        r == component_less(a@, b@),
{
    let ra = rank_of(a);
    let rb = rank_of(b);
    if ra != rb {
        ra < rb
    } else {
        text_less_exec(a, b)
    }
}

fn less(a: &Vec<char>, b: &Vec<char>) -> (r: bool)
    ensures
        r == path_less(a@, b@),
{
    let ka = path_components_of(a);
    let kb = path_components_of(b);
    let ghost va = views(ka@);
    let ghost vb = views(kb@);
    let mut i: usize = 0;
    proof {
        assert(va.skip(0) =~= va);
        assert(vb.skip(0) =~= vb);
    }
    while i < ka.len() && i < kb.len()
        invariant
            va == views(ka@),
            vb == views(kb@),
            va == path_components(a@),
            vb == path_components(b@),
            i <= ka.len(),
            i <= kb.len(),
            path_less(a@, b@) == components_less(va.skip(i as int), vb.skip(i as int)),
        decreases ka.len() - i,
    {
        proof {
            assert(va.skip(i as int)[0] == ka@[i as int]@);
            assert(vb.skip(i as int)[0] == kb@[i as int]@);
        }
        if !equal_chars(&ka[i], &kb[i]) {
            return component_less_exec(&ka[i], &kb[i]);
        }
        proof {
            assert(va.skip(i as int).skip(1) =~= va.skip(i + 1));
            assert(vb.skip(i as int).skip(1) =~= vb.skip(i + 1));
        }
        i = i + 1;
    }
    i < kb.len()
}

/// Strictly ascending by `path_less`, neighbour by neighbour.
pub open spec fn ascending(s: Seq<Seq<char>>) -> bool {
    forall|i: int| 0 <= i < s.len() - 1 ==> #[trigger] path_less(s[i], s[i + 1])
}

pub open spec fn string_views(v: Seq<String>) -> Seq<Seq<char>> {
    v.map_values(|s: String| s@)
}

/// A candidate `check` keeps: a supported source that no pattern ignores.
pub open spec fn kept(path: Seq<char>, patterns: Seq<String>, cwd: Seq<char>) -> bool {
    is_supported_source(path) && !ignored(patterns, path, cwd)
}

/// Some item of `s` is the same path as `p`.
pub open spec fn holds_path(s: Seq<Seq<char>>, p: Seq<char>) -> bool {
    exists|k: int| 0 <= k < s.len() && same_path(#[trigger] s[k], p)
}

proof fn lemma_text_less_trans(a: Seq<char>, b: Seq<char>, c: Seq<char>)
    requires
        text_less(a, b),
        text_less(b, c),
    ensures
        text_less(a, c),
    decreases a.len(),
{
    if a.len() > 0 && b.len() > 0 && c.len() > 0 && a[0] == b[0] && b[0] == c[0] {
        lemma_text_less_trans(a.skip(1), b.skip(1), c.skip(1));
    }
}

proof fn lemma_component_less_trans(a: Seq<char>, b: Seq<char>, c: Seq<char>)
    requires
        component_less(a, b),
        component_less(b, c),
    ensures
        component_less(a, c),
{
    if component_rank(a) == component_rank(b) && component_rank(b) == component_rank(c) {
        lemma_text_less_trans(a, b, c);
    }
}

proof fn lemma_components_less_trans(a: Seq<Seq<char>>, b: Seq<Seq<char>>, c: Seq<Seq<char>>)
    requires
        components_less(a, b),
        components_less(b, c),
    ensures
        components_less(a, c),
    decreases a.len(),
{
    if a.len() > 0 && b.len() > 0 && c.len() > 0 {
        if a[0] == b[0] && b[0] == c[0] {
            lemma_components_less_trans(a.skip(1), b.skip(1), c.skip(1));
        } else if a[0] == b[0] {
        } else if b[0] == c[0] {
        } else {
            lemma_component_less_trans(a[0], b[0], c[0]);
            if a[0] == c[0] {
                lemma_component_less_total(a[0], b[0]);
            }
        }
    }
}

/// `path_less` is transitive.
pub proof fn lemma_path_less_trans(a: Seq<char>, b: Seq<char>, c: Seq<char>)
    requires
        path_less(a, b),
        path_less(b, c),
    ensures
        path_less(a, c),
{
    lemma_components_less_trans(path_components(a), path_components(b), path_components(c));
}

/// In an ascending list every item sorts before every later one.
proof fn lemma_ascending_pairs(s: Seq<Seq<char>>, i: int, j: int)
    requires
        ascending(s),
        0 <= i < j < s.len(),
    ensures
        path_less(s[i], s[j]),
    decreases j - i,
{
    if j > i + 1 {
        lemma_ascending_pairs(s, i, j - 1);
        assert(path_less(s[j - 1], s[j - 1 + 1]));
        lemma_path_less_trans(s[i], s[j - 1], s[j]);
    } else {
        assert(path_less(s[i], s[i + 1]));
    }
}

/// Inserts `x` into the ascending list `out` unless `out` already holds the
/// same path.
fn insert_sorted(out: &mut Vec<String>, x: String)
    requires
        ascending(string_views(old(out)@)),
    ensures
        ascending(string_views(final(out)@)),
        holds_path(string_views(old(out)@), x@) ==> final(out)@ == old(out)@,
        !holds_path(string_views(old(out)@), x@) ==> string_views(final(out)@).to_set()
            == string_views(old(out)@).to_set().insert(x@),
{
    let xs = chars_of(x.as_str());
    let mut j: usize = 0;
    while j < out.len() && less(&chars_of(out[j].as_str()), &xs)
        invariant
            j <= out.len(),
            xs@ == x@,
            ascending(string_views(out@)),
            j > 0 ==> path_less(out@[j - 1]@, x@),
        decreases out.len() - j,
    {
        j = j + 1;
    }
    let ghost before = string_views(out@);
    if j < out.len() {
        let cur = chars_of(out[j].as_str());
        if !less(&cur, &xs) && !less(&xs, &cur) {
            proof {
                lemma_path_less_total(out@[j as int]@, x@);
                assert(before[j as int] == out@[j as int]@);
                assert(same_path(before[j as int], x@));
            }
            return;
        }
        proof {
            lemma_path_less_total(out@[j as int]@, x@);
        }
    }
    proof {
        assert forall|k: int| 0 <= k < before.len() implies !same_path(#[trigger] before[k], x@) by {
            assert(before[k] == out@[k]@);
            if k < j {
                if k < j - 1 {
                    lemma_ascending_pairs(before, k, j - 1);
                    assert(before[j - 1] == out@[j - 1]@);
                    lemma_path_less_trans(before[k], before[j - 1], x@);
                }
                lemma_path_less_total(before[k], x@);
            } else {
                assert(before[j as int] == out@[j as int]@);
                if k > j {
                    lemma_ascending_pairs(before, j as int, k);
                    lemma_path_less_trans(x@, before[j as int], before[k]);
                }
                lemma_path_less_total(x@, before[k]);
            }
        }
    }
    out.insert(j, x);
    proof {
        let after = string_views(out@);
        assert(after =~= before.insert(j as int, x@));
        before.insert_ensures(j as int, x@);
        if j > 0 {
            assert(before[j - 1] == out@[j - 1]@) by { assert(after[j - 1] == before[j - 1]); }
        }
        assert forall|i: int| 0 <= i < after.len() - 1 implies #[trigger] path_less(after[i], after[i + 1]) by {
            if i < j as int - 1 {
                assert(after[i] == before[i] && after[i + 1] == before[i + 1]);
            } else if i == j as int - 1 {
            } else if i == j as int {
            } else {
                assert(after[i] == before[i - 1] && after[i + 1] == before[i]);
            }
        }
        assert forall|s: Seq<char>| after.to_set().contains(s) <==> before.to_set().insert(x@).contains(s) by {
            if after.to_set().contains(s) {
                let k = choose|k: int| 0 <= k < after.len() && #[trigger] after[k] == s;
                if k < j { assert(before[k] == s); } else if k > j { assert(before[k - 1] == s); }
            }
            if before.to_set().contains(s) {
                let k = choose|k: int| 0 <= k < before.len() && #[trigger] before[k] == s;
                if k < j { assert(after[k] == s); } else { assert(after[k + 1] == s); }
            }
            if s == x@ { assert(after[j as int] == s); }
        }
        assert(after.to_set() =~= before.to_set().insert(x@));
    }
}

/// A path held by `a` is held by any list holding every item of `a`.
proof fn lemma_holds_path_grows(a: Seq<Seq<char>>, b: Seq<Seq<char>>, p: Seq<char>)
    requires
        holds_path(a, p),
        forall|s: Seq<char>| a.to_set().contains(s) ==> #[trigger] b.to_set().contains(s),
    ensures
        holds_path(b, p),
{
    let k = choose|k: int| 0 <= k < a.len() && same_path(#[trigger] a[k], p);
    assert(a.to_set().contains(a[k]));
    assert(b.to_set().contains(a[k]));
    let m = choose|m: int| 0 <= m < b.len() && #[trigger] b[m] == a[k];
    assert(same_path(b[m], p));
}

/// `s` is the first of the first `n` items of `c` that names its path.
pub open spec fn first_naming(c: Seq<Seq<char>>, n: int, s: Seq<char>) -> bool {
    exists|j: int| 0 <= j < n && #[trigger] c[j] == s
        && forall|k: int| 0 <= k < j ==> !same_path(#[trigger] c[k], s)
}

/// The paths of `v` in ascending path order, each path once (the first of
/// the texts that name it).
pub fn sort_paths(v: &Vec<String>) -> (r: Vec<String>)
    ensures
        ascending(string_views(r@)),
        forall|s: Seq<char>| #[trigger] string_views(r@).contains(s)
            ==> first_naming(string_views(v@), v.len() as int, s),
        forall|s: Seq<char>| #[trigger] string_views(v@).contains(s) ==> holds_path(string_views(r@), s),
{
    let mut out: Vec<String> = Vec::new();
    let mut i: usize = 0;
    while i < v.len()
        invariant
            i <= v.len(),
            ascending(string_views(out@)),
            forall|s: Seq<char>| #[trigger] string_views(out@).contains(s)
                ==> first_naming(string_views(v@), i as int, s),
            forall|s: Seq<char>| #[trigger] string_views(v@).take(i as int).contains(s)
                ==> holds_path(string_views(out@), s),
        decreases v.len() - i,
    {
        let ghost before = string_views(out@);
        let x = v[i].clone();
        insert_sorted(&mut out, x);
        proof {
            let vs = string_views(v@);
            let after = string_views(out@);
            assert(vs[i as int] == v@[i as int]@);
            assert(vs.take(i + 1) =~= vs.take(i as int).push(vs[i as int]));
            assert forall|s: Seq<char>| #[trigger] before.contains(s) implies first_naming(vs, i + 1, s) by {
                let j = choose|j: int| 0 <= j < i && #[trigger] vs[j] == s
                    && forall|k: int| 0 <= k < j ==> !same_path(#[trigger] vs[k], s);
            }
            if !holds_path(before, vs[i as int]) {
                assert forall|k: int| 0 <= k < i implies !same_path(#[trigger] vs[k], vs[i as int]) by {
                    assert(vs.take(i as int)[k] == vs[k]);
                    assert(vs.take(i as int).contains(vs[k]));
                    let m = choose|m: int| 0 <= m < before.len() && same_path(#[trigger] before[m], vs[k]);
                    if same_path(vs[k], vs[i as int]) {
                        assert(same_path(before[m], vs[i as int]));
                    }
                }
                assert(first_naming(vs, i + 1, vs[i as int]));
            }
            assert forall|s: Seq<char>| #[trigger] after.contains(s) implies first_naming(vs, i + 1, s) by {
                assert(after.to_set().contains(s));
                if before.to_set().contains(s) {
                    let k = choose|k: int| 0 <= k < before.len() && #[trigger] before[k] == s;
                    assert(before.contains(s));
                }
            }
            assert forall|s: Seq<char>| #[trigger] vs.take(i + 1).contains(s) implies holds_path(after, s) by {
                let w = choose|w: int| 0 <= w < i + 1 && #[trigger] vs.take(i + 1)[w] == s;
                if w < i {
                    assert(vs.take(i as int)[w] == s);
                    assert(vs.take(i as int).contains(s));
                    assert forall|t: Seq<char>| before.to_set().contains(t) implies #[trigger] after.to_set().contains(t) by {}
                    lemma_holds_path_grows(before, after, s);
                } else if holds_path(before, s) {
                    assert forall|t: Seq<char>| before.to_set().contains(t) implies #[trigger] after.to_set().contains(t) by {}
                    lemma_holds_path_grows(before, after, s);
                } else {
                    assert(after.to_set().contains(s));
                    let m = choose|m: int| 0 <= m < after.len() && #[trigger] after[m] == s;
                    assert(same_path(after[m], s));
                }
            }
        }
        i = i + 1;
    }
    proof {
        assert(string_views(v@).take(v.len() as int) =~= string_views(v@));
    }
    out
}

/// `s` is the first kept item of `c`, among the first `n`, that names its
/// path.
pub open spec fn first_of_path(c: Seq<Seq<char>>, n: int, s: Seq<char>, patterns: Seq<String>, cwd: Seq<char>) -> bool {
    exists|j: int| 0 <= j < n && #[trigger] c[j] == s
        && forall|k: int| 0 <= k < j && kept(#[trigger] c[k], patterns, cwd) ==> !same_path(c[k], s)
}

/// The files `check` type-checks out of `candidates` (what the path,
/// directory walk or glob produced): every ignore pattern must be a valid
/// glob; supported sources that no pattern ignores are kept, each path once
/// (under the first text that names it), in ascending path order; none kept
/// is an error.
pub fn run(args: &CheckArgs, candidates: &Vec<String>, cwd: &str) -> (r: Result<Vec<String>, CheckError>)
    ensures
        match r {
            Ok(files) => {
                &&& forall|i: int| 0 <= i < args.ignore.len()
                    ==> #[trigger] glob_match(args.ignore@[i]@, ""@) is Some
                &&& files.len() > 0
                &&& ascending(string_views(files@))
                &&& forall|s: Seq<char>| #[trigger] string_views(files@).contains(s) ==>
                    kept(s, args.ignore@, cwd@)
                    && first_of_path(string_views(candidates@), candidates.len() as int, s, args.ignore@, cwd@)
                &&& forall|s: Seq<char>| #[trigger] string_views(candidates@).contains(s)
                    && kept(s, args.ignore@, cwd@) ==> holds_path(string_views(files@), s)
            },
            Err(CheckError::InvalidIgnorePattern(p)) => exists|i: int| 0 <= i < args.ignore.len()
                && args.ignore@[i]@ == p@ && glob_match(p@, ""@) is None,
            Err(CheckError::NoSourceFiles) => forall|s: Seq<char>|
                #[trigger] string_views(candidates@).contains(s) ==> !kept(s, args.ignore@, cwd@),
        },
{
    let mut k: usize = 0;
    while k < args.ignore.len()
        invariant
            k <= args.ignore.len(),
            forall|i: int| 0 <= i < k ==> #[trigger] glob_match(args.ignore@[i]@, ""@) is Some,
        decreases args.ignore.len() - k,
    {
        if glob_matches(args.ignore[k].as_str(), "").is_none() {
            return Err(CheckError::InvalidIgnorePattern(args.ignore[k].clone()));
        }
        k = k + 1;
    }
    let ghost cs = string_views(candidates@);
    let ghost pats = args.ignore@;
    let mut out: Vec<String> = Vec::new();
    let mut i: usize = 0;
    while i < candidates.len()
        invariant
            cs == string_views(candidates@),
            pats == args.ignore@,
            i <= candidates.len(),
            forall|a: int| 0 <= a < args.ignore.len() ==> #[trigger] glob_match(args.ignore@[a]@, ""@) is Some,
            ascending(string_views(out@)),
            forall|s: Seq<char>| #[trigger] string_views(out@).contains(s) ==>
                kept(s, pats, cwd@) && first_of_path(cs, i as int, s, pats, cwd@),
            forall|s: Seq<char>| #[trigger] cs.take(i as int).contains(s) && kept(s, pats, cwd@)
                ==> holds_path(string_views(out@), s),
        decreases candidates.len() - i,
    {
        let path = candidates[i].as_str();
        let keep = is_supported_source_file(path) && !matches_ignore(path, cwd, &args.ignore);
        let ghost before = string_views(out@);
        let ghost x = cs[i as int];
        proof {
            assert(x == candidates@[i as int]@);
            assert(cs.take(i + 1) =~= cs.take(i as int).push(x));
            assert forall|s: Seq<char>| #[trigger] before.contains(s) implies
                first_of_path(cs, i + 1, s, pats, cwd@) by {
                let j = choose|j: int| 0 <= j < i && #[trigger] cs[j] == s
                    && forall|k: int| 0 <= k < j && kept(#[trigger] cs[k], pats, cwd@) ==> !same_path(cs[k], s);
            }
        }
        if keep {
            insert_sorted(&mut out, candidates[i].clone());
            proof {
                let after = string_views(out@);
                assert forall|t: Seq<char>| before.to_set().contains(t) implies #[trigger] after.to_set().contains(t) by {}
                if !holds_path(before, x) {
                    assert forall|k: int| 0 <= k < i && kept(#[trigger] cs[k], pats, cwd@) implies !same_path(cs[k], x) by {
                        assert(cs.take(i as int)[k] == cs[k]);
                        assert(cs.take(i as int).contains(cs[k]));
                        assert(holds_path(before, cs[k]));
                        let m = choose|m: int| 0 <= m < before.len() && same_path(#[trigger] before[m], cs[k]);
                        if same_path(cs[k], x) {
                            assert(same_path(before[m], x));
                        }
                    }
                    assert(first_of_path(cs, i + 1, x, pats, cwd@));
                }
                assert forall|s: Seq<char>| #[trigger] after.contains(s) implies
                    kept(s, pats, cwd@) && first_of_path(cs, i + 1, s, pats, cwd@) by {
                    assert(after.to_set().contains(s));
                    if before.to_set().contains(s) {
                        let m = choose|m: int| 0 <= m < before.len() && #[trigger] before[m] == s;
                        assert(before.contains(s));
                    }
                }
                assert forall|s: Seq<char>| #[trigger] cs.take(i + 1).contains(s) && kept(s, pats, cwd@)
                    implies holds_path(after, s) by {
                    let w = choose|w: int| 0 <= w < i + 1 && #[trigger] cs.take(i + 1)[w] == s;
                    if w < i {
                        assert(cs.take(i as int)[w] == s);
                        assert(cs.take(i as int).contains(s));
                        lemma_holds_path_grows(before, after, s);
                    } else if holds_path(before, s) {
                        lemma_holds_path_grows(before, after, s);
                    } else {
                        assert(after.to_set().contains(s));
                        let m = choose|m: int| 0 <= m < after.len() && #[trigger] after[m] == s;
                        assert(same_path(after[m], s));
                    }
                }
            }
        } else {
            proof {
                assert forall|s: Seq<char>| #[trigger] cs.take(i + 1).contains(s) && kept(s, pats, cwd@)
                    implies holds_path(before, s) by {
                    let w = choose|w: int| 0 <= w < i + 1 && #[trigger] cs.take(i + 1)[w] == s;
                    if w < i {
                        assert(cs.take(i as int)[w] == s);
                        assert(cs.take(i as int).contains(s));
                    }
                }
            }
        }
        i = i + 1;
    }
    proof {
        assert(cs.take(candidates.len() as int) =~= cs);
    }
    if out.len() == 0 {
        proof {
            assert forall|s: Seq<char>| #[trigger] cs.contains(s) implies !kept(s, pats, cwd@) by {
                if kept(s, pats, cwd@) {
                    assert(holds_path(string_views(out@), s));
                }
            }
        }
        return Err(CheckError::NoSourceFiles);
    }
    Ok(out)
}

} // verus!
