use farm_plugins::glob_pattern::GlobPattern;
use farm_plugins::json::JsonValue;
use farm_plugins::path_matcher::{first_existing_of, MatchError, PathMatcher};
use farm_plugins::path_text::{ancestor_paths, file_stem_of, join_path, parent_path, paths_equal};
use farm_plugins::tsconfig_loader::{contains_path, TsconfigError, TsconfigLoader};
use farm_plugins::tsconfig_paths::{
    Answer, EnhancedTsconfigPaths, Options, ResolveFailure, ResolveResult, ResolveStep, TsconfigPathsOptions,
};

fn s(x: &str) -> String {
    x.to_string()
}

fn strings(xs: &[&str]) -> Vec<String> {
    xs.iter().map(|x| x.to_string()).collect()
}

fn obj(members: Vec<(&str, JsonValue)>) -> JsonValue {
    JsonValue::Object(members.into_iter().map(|(k, v)| (k.to_string(), v)).collect())
}

fn jstr(x: &str) -> JsonValue {
    JsonValue::String(x.to_string())
}

fn tsconfig_json(base: &str, paths: Vec<(&str, JsonValue)>) -> JsonValue {
    obj(vec![("compilerOptions", obj(vec![("baseUrl", jstr(base)), ("paths", obj(paths))]))])
}

#[test]
fn glob_patterns() {
    assert!(GlobPattern::compile("a**b").is_none());
    assert!(GlobPattern::compile("[abc").is_none());
    let p = GlobPattern::compile("@/*").unwrap();
    assert_eq!(p.as_str(), "@/*");
    assert!(p.matches("@/utils"));
    assert!(!p.matches("lodash"));
}

#[test]
fn path_operations() {
    assert_eq!(join_path("/p", "src/a"), "/p/src/a");
    assert_eq!(join_path("/p", "/abs"), "/abs");
    assert_eq!(parent_path("/p/src"), Some(s("/p")));
    assert_eq!(parent_path("/"), None);
    assert_eq!(ancestor_paths("/p/src"), strings(&["/p/src", "/p", "/"]));
    assert_eq!(file_stem_of("/p/a.ts"), Some(s("a")));
    assert!(paths_equal("/p/src/", "/p/src"));
    assert!(paths_equal("/p//src", "/p/src"));
    assert!(!paths_equal("/p/src", "/p/lib"));
}

#[test]
fn matcher_rejects_bad_substitution() {
    let paths = vec![(s("@/*"), strings(&["src/*", "a**b"]))];
    assert!(PathMatcher::try_new("/p", &paths, &vec![], false).is_none());
}

#[test]
fn matcher_candidates_in_order() {
    let paths = vec![(s("@/*"), strings(&["src/*", "lib/*"])), (s("other/*"), strings(&["x/*"]))];
    let m = PathMatcher::try_new("/p", &paths, &vec![], false).unwrap();
    let exts = strings(&[".ts", ".tsx"]);
    let (c, stopped) = m.candidates("@/utils", &exts);
    assert_eq!(stopped, None);
    assert_eq!(
        c,
        strings(&[
            "/p/src/@/utils",
            "/p/src/@/utils.ts",
            "/p/src/@/utils.tsx",
            "/p/lib/@/utils",
            "/p/lib/@/utils.ts",
            "/p/lib/@/utils.tsx",
        ])
    );
    assert!(m.candidates("lodash", &exts).0.is_empty());
}

#[test]
fn match_all_appends_a_star_to_keys() {
    let paths = vec![(s("@"), strings(&["src/*"]))];
    let exact = PathMatcher::try_new("/p", &paths, &vec![], false).unwrap();
    assert!(exact.candidates("@/x", &vec![]).0.is_empty());
    let all = PathMatcher::try_new("/p", &paths, &vec![], true).unwrap();
    assert_eq!(all.candidates("@/x", &vec![]), (strings(&["/p/src/@/x"]), None));
}

#[test]
fn match_path_picks_first_existing() {
    let paths = vec![(s("@/*"), strings(&["src/*", "lib/*"]))];
    let m = PathMatcher::try_new("/p", &paths, &vec![], false).unwrap();
    let exts = strings(&[".ts"]);
    let existing = strings(&["/p/lib/@/utils.ts", "/p/src/@/utils.ts"]);
    assert_eq!(m.match_path("@/utils", &exts, &existing), Ok(Some(s("/p/src/@/utils.ts"))));
    assert_eq!(m.match_path("@/none", &exts, &existing), Ok(None));
    let bad = PathMatcher::try_new("/p", &vec![(s("a**b"), strings(&["x"]))], &vec![], false).unwrap();
    assert_eq!(bad.match_path("a", &exts, &existing), Err(MatchError::InvalidKeyPattern));
}

#[test]
fn keys_are_checked_as_entries_are_reached() {
    let paths = vec![(s("@/*"), strings(&["src/*"])), (s("a**b"), strings(&["x"])), (s("*"), strings(&["lib/*"]))];
    let m = PathMatcher::try_new("/p", &paths, &vec![], false).unwrap();
    let exts = strings(&[".ts"]);
    assert_eq!(
        m.candidates("@/u", &exts),
        (strings(&["/p/src/@/u", "/p/src/@/u.ts"]), Some(MatchError::InvalidKeyPattern))
    );
    let found = strings(&["/p/src/@/u.ts", "/p/lib/@/u.ts"]);
    assert_eq!(m.match_path("@/u", &exts, &found), Ok(Some(s("/p/src/@/u.ts"))));
    let later = strings(&["/p/lib/@/u.ts"]);
    assert_eq!(m.match_path("@/u", &exts, &later), Err(MatchError::InvalidKeyPattern));
}

#[test]
fn first_existing_and_membership() {
    assert_eq!(first_existing_of(&strings(&["a", "b", "c"]), &strings(&["c", "b"])), Some(s("b")));
    assert_eq!(first_existing_of(&strings(&["a"]), &strings(&[])), None);
    assert!(contains_path(&strings(&["x", "y"]), "y"));
    assert!(!contains_path(&strings(&["x", "y"]), "z"));
}

#[test]
fn closest_tsconfig_dir_from_a_fresh_loader() {
    let mut loader = TsconfigLoader::new();
    let existing = strings(&["/p/tsconfig.json", "/tsconfig.json"]);
    assert_eq!(loader.get_closest_tsconfig_dir("/p/src/app", &existing), Some(s("/p")));
    let mut fresh = TsconfigLoader::new();
    assert_eq!(fresh.get_closest_tsconfig_dir("/q", &existing), Some(s("/")));
    let mut none = TsconfigLoader::new();
    assert_eq!(none.get_closest_tsconfig_dir("/q/r", &vec![]), None);
}

#[test]
fn cached_directories_end_the_walk() {
    let mut loader = TsconfigLoader::new();
    let existing = strings(&["/p/tsconfig.json"]);
    assert_eq!(loader.get_closest_tsconfig_dir("/p/src", &existing), Some(s("/p")));
    // "/p" is remembered as holding the file
    assert_eq!(loader.get_closest_tsconfig_dir("/p", &existing), Some(s("/p")));
    // "/p/src" is remembered as holding none, which ends the walk there
    assert_eq!(loader.get_closest_tsconfig_dir("/p/src", &existing), None);
}

#[test]
fn load_finds_and_reads_the_nearest_tsconfig() {
    let json = tsconfig_json("./base", vec![("@/*", JsonValue::Array(vec![jstr("src/*")]))]);
    let mut loader = TsconfigLoader::new();
    let existing = strings(&["/p/tsconfig.json"]);
    let r = loader.load("/p/src", &existing, &vec![(s("/p/tsconfig.json"), clone_json(&json))]).unwrap().unwrap();
    assert_eq!(r.config_file_abs_path, "/p/tsconfig.json");
    assert_eq!(r.absolute_base_url, "/p/./base");
    assert_eq!(r.paths, vec![(s("@/*"), strings(&["src/*"]))]);
    let mut unreadable = TsconfigLoader::new();
    assert!(unreadable.load("/p/src", &existing, &vec![]).unwrap().is_none());
    let mut missing = TsconfigLoader::new();
    assert!(missing.load("/p/src", &vec![], &vec![(s("/p/tsconfig.json"), json)]).unwrap().is_none());
}

#[test]
fn cache_compares_paths_by_components() {
    let mut loader = TsconfigLoader::new();
    let existing = strings(&["/p/tsconfig.json"]);
    assert_eq!(loader.get_closest_tsconfig_dir("/p/src/", &existing), Some(s("/p")));
    assert_eq!(loader.get_closest_tsconfig_dir("/p/src", &existing), None);
}

#[test]
fn load_from_reads_base_url_and_paths() {
    let json = tsconfig_json(".", vec![("@/*", JsonValue::Array(vec![jstr("src/*"), jstr("lib/*")]))]);
    let r = TsconfigLoader::load_from("/p", &json).unwrap();
    assert_eq!(r.config_file_abs_path, "/p/tsconfig.json");
    assert_eq!(r.absolute_base_url, "/p/.");
    assert_eq!(r.paths, vec![(s("@/*"), strings(&["src/*", "lib/*"]))]);
}

#[test]
fn load_from_without_options_gives_nothing() {
    assert!(TsconfigLoader::load_from("/p", &obj(vec![])).is_none());
    let no_base = obj(vec![("compilerOptions", obj(vec![("paths", obj(vec![]))]))]);
    assert!(TsconfigLoader::load_from("/p", &no_base).is_none());
    let base_not_string = obj(vec![("compilerOptions", obj(vec![("baseUrl", JsonValue::Null), ("paths", obj(vec![]))]))]);
    assert!(TsconfigLoader::load_from("/p", &base_not_string).is_none());
    let paths_not_object = obj(vec![("compilerOptions", obj(vec![("baseUrl", jstr(".")), ("paths", JsonValue::Bool(true))]))]);
    assert!(TsconfigLoader::load_from("/p", &paths_not_object).is_none());
    assert!(TsconfigLoader::load_from("/p", &JsonValue::Array(vec![])).is_none());
}

#[test]
fn tsconfig_errors_are_found() {
    let not_array = tsconfig_json(".", vec![("@/*", jstr("src/*"))]);
    assert_eq!(TsconfigLoader::tsconfig_error_of(&not_array), Some(TsconfigError::PathsEntryNotArray));
    let mut loader = TsconfigLoader::new();
    let existing = strings(&["/p/tsconfig.json"]);
    let files = vec![(s("/p/tsconfig.json"), clone_json(&not_array))];
    assert_eq!(loader.load("/p/src", &existing, &files).err(), Some(TsconfigError::PathsEntryNotArray));
    let not_string = tsconfig_json(".", vec![("@/*", JsonValue::Array(vec![JsonValue::Number(s("1"))]))]);
    assert_eq!(TsconfigLoader::tsconfig_error_of(&not_string), Some(TsconfigError::PathsItemNotString));
    let fine = tsconfig_json(".", vec![("@/*", JsonValue::Array(vec![jstr("x")]))]);
    assert_eq!(TsconfigLoader::tsconfig_error_of(&fine), None);
    let no_base = obj(vec![("compilerOptions", obj(vec![("paths", obj(vec![("x", jstr("y"))]))]))]);
    assert_eq!(TsconfigLoader::tsconfig_error_of(&no_base), None);
}

fn plugin(exts: &[&str], ignore_node_modules: bool) -> EnhancedTsconfigPaths {
    EnhancedTsconfigPaths::new(
        "/p",
        Options {
            ignore_node_modules,
            tsconfig_paths: TsconfigPathsOptions { main_fields: vec![], extensions: strings(exts), match_all: false },
        },
    )
}

struct Fs {
    files: Vec<String>,
    dirs: Vec<String>,
    tsconfigs: Vec<(String, JsonValue)>,
    canon: Vec<(String, String)>,
}

fn clone_json(j: &JsonValue) -> JsonValue {
    match j {
        JsonValue::Null => JsonValue::Null,
        JsonValue::Bool(b) => JsonValue::Bool(*b),
        JsonValue::Number(n) => JsonValue::Number(n.clone()),
        JsonValue::String(t) => JsonValue::String(t.clone()),
        JsonValue::Array(a) => JsonValue::Array(a.iter().map(clone_json).collect()),
        JsonValue::Object(m) => JsonValue::Object(m.iter().map(|(k, v)| (k.clone(), clone_json(v))).collect()),
    }
}

fn run(p: &EnhancedTsconfigPaths, request: &str, importer: Option<&str>, fs: &Fs) -> Result<Option<ResolveResult>, ResolveFailure> {
    let mut r = p.resolve(request, importer);
    for _ in 0..20 {
        let answer = match r.next_step() {
            ResolveStep::ProbeFiles(list) => Answer::Files(list.into_iter().filter(|f| fs.files.contains(f)).collect()),
            ResolveStep::ReadTsconfig(path) => {
                Answer::Tsconfig(fs.tsconfigs.iter().find(|(k, _)| *k == path).map(|(_, v)| clone_json(v)))
            },
            ResolveStep::Canonicalize(path) => Answer::Canonical(match fs.canon.iter().find(|(k, _)| *k == path) {
                Some((_, v)) => Some(v.clone()),
                None => {
                    if fs.files.contains(&path) || fs.dirs.contains(&path) {
                        Some(path)
                    } else {
                        None
                    }
                },
            }),
            ResolveStep::CheckDir(path) => Answer::IsDir(fs.dirs.contains(&path)),
            ResolveStep::Done(res) => return Ok(res),
            ResolveStep::Failed(f) => return Err(f),
        };
        r.advance(answer);
    }
    panic!("resolution did not end");
}

fn project() -> Fs {
    Fs {
        files: strings(&["/p/tsconfig.json", "/p/src/utils.ts", "/p/src/comp/index.tsx", "/p/src/styles.css"]),
        dirs: strings(&["/p/src/comp"]),
        tsconfigs: vec![(s("/p/tsconfig.json"), tsconfig_json("/p", vec![("@/*", JsonValue::Array(vec![jstr("src/*")]))]))],
        canon: vec![],
    }
}

#[test]
fn resolve_relative_and_importerless_requests_end_at_once() {
    let p = plugin(&[".ts"], false);
    let fs = project();
    assert!(run(&p, "./utils", Some("/p/src/main.ts"), &fs).unwrap().is_none());
    assert!(run(&p, "../utils", Some("/p/src/main.ts"), &fs).unwrap().is_none());
    assert!(run(&p, "@/utils", None, &fs).unwrap().is_none());
}

#[test]
fn resolve_through_extension() {
    let p = plugin(&[".ts", ".tsx"], false);
    let fs = project();
    let r = run(&p, "utils", Some("/p/src/main.ts"), &fs).unwrap();
    assert!(r.is_none());
    let r = run(&p, "@/*", Some("/p/src/main.ts"), &fs).unwrap();
    assert!(r.is_none());
    let fs2 = Fs {
        files: strings(&["/p/tsconfig.json", "/p/src/utils.ts"]),
        dirs: vec![],
        tsconfigs: vec![(s("/p/tsconfig.json"), tsconfig_json("/p", vec![("*", JsonValue::Array(vec![jstr("src/*")]))]))],
        canon: vec![],
    };
    let r = run(&p, "utils", Some("/p/src/main.ts"), &fs2).unwrap().unwrap();
    assert_eq!(r.resolved_path, "/p/src/utils.ts");
    assert!(!r.external);
    assert!(r.side_effects);
    assert!(r.query.is_empty() && r.meta.is_empty());
}

#[test]
fn resolve_directory_index() {
    let p = plugin(&[".ts"], false);
    let fs = Fs {
        files: strings(&["/p/tsconfig.json", "/p/src/comp", "/p/src/comp/index.tsx"]),
        dirs: strings(&["/p/src/comp"]),
        tsconfigs: vec![(s("/p/tsconfig.json"), tsconfig_json("/p", vec![("*", JsonValue::Array(vec![jstr("src/*")]))]))],
        canon: vec![],
    };
    let r = run(&p, "comp", Some("/p/src/main.ts"), &fs).unwrap().unwrap();
    assert_eq!(r.resolved_path, "/p/src/comp/index.tsx");
}

#[test]
fn resolve_ignores_node_modules_when_asked() {
    let fs = Fs {
        files: strings(&["/p/tsconfig.json", "/p/src/utils.ts"]),
        dirs: vec![],
        tsconfigs: vec![(s("/p/tsconfig.json"), tsconfig_json("/p", vec![("*", JsonValue::Array(vec![jstr("src/*")]))]))],
        canon: vec![],
    };
    let importer = Some("/p/node_modules/lib/index.js");
    assert!(run(&plugin(&[".ts"], true), "utils", importer, &fs).unwrap().is_none());
    let r = run(&plugin(&[".ts"], false), "utils", importer, &fs).unwrap().unwrap();
    assert_eq!(r.resolved_path, "/p/src/utils.ts");
}

#[test]
fn resolve_failures() {
    let p = plugin(&[".ts"], false);
    assert_eq!(run(&p, "x", Some("/"), &project()).err(), Some(ResolveFailure::ImporterWithoutDirectory));
    let bad_sub = Fs {
        files: strings(&["/p/tsconfig.json"]),
        dirs: vec![],
        tsconfigs: vec![(s("/p/tsconfig.json"), tsconfig_json("/p", vec![("*", JsonValue::Array(vec![jstr("a**b")]))]))],
        canon: vec![],
    };
    assert_eq!(run(&p, "x", Some("/p/a.ts"), &bad_sub).err(), Some(ResolveFailure::InvalidSubstitution));
    let bad_key = Fs {
        files: strings(&["/p/tsconfig.json"]),
        dirs: vec![],
        tsconfigs: vec![(s("/p/tsconfig.json"), tsconfig_json("/p", vec![("a**b", JsonValue::Array(vec![jstr("x")]))]))],
        canon: vec![],
    };
    assert_eq!(run(&p, "x", Some("/p/a.ts"), &bad_key).err(), Some(ResolveFailure::InvalidKey));
    let found_before_bad_key = Fs {
        files: strings(&["/p/tsconfig.json", "/p/src/x.ts"]),
        dirs: vec![],
        tsconfigs: vec![(
            s("/p/tsconfig.json"),
            tsconfig_json(
                "/p",
                vec![("*", JsonValue::Array(vec![jstr("src/*")])), ("a**b", JsonValue::Array(vec![jstr("x")]))],
            ),
        )],
        canon: vec![],
    };
    let r = run(&p, "x", Some("/p/a.ts"), &found_before_bad_key).unwrap().unwrap();
    assert_eq!(r.resolved_path, "/p/src/x.ts");
    let bad_paths = Fs {
        files: strings(&["/p/tsconfig.json"]),
        dirs: vec![],
        tsconfigs: vec![(s("/p/tsconfig.json"), tsconfig_json("/p", vec![("x", jstr("y"))]))],
        canon: vec![],
    };
    assert_eq!(
        run(&p, "x", Some("/p/a.ts"), &bad_paths).err(),
        Some(ResolveFailure::Tsconfig(TsconfigError::PathsEntryNotArray))
    );
}

#[test]
fn resolve_without_tsconfig_gives_nothing() {
    let p = plugin(&[".ts"], false);
    let fs = Fs { files: strings(&["/p/src/utils.ts"]), dirs: vec![], tsconfigs: vec![], canon: vec![] };
    assert!(run(&p, "utils", Some("/p/src/main.ts"), &fs).unwrap().is_none());
    let unreadable = Fs { files: strings(&["/p/tsconfig.json"]), dirs: vec![], tsconfigs: vec![], canon: vec![] };
    assert!(run(&p, "utils", Some("/p/src/main.ts"), &unreadable).unwrap().is_none());
}

#[test]
fn resolve_falls_back_to_the_stem_with_an_extension() {
    let p = plugin(&[".ts"], false);
    // the match canonicalizes to a path that does not exist; its stem with
    // ".ts" beside it does
    let fs = Fs {
        files: strings(&["/p/tsconfig.json", "/p/src/lib.js", "/p/real/lib.ts"]),
        dirs: vec![],
        tsconfigs: vec![(s("/p/tsconfig.json"), tsconfig_json("/p", vec![("*", JsonValue::Array(vec![jstr("src/*.js")]))]))],
        canon: vec![(s("/p/src/lib.js"), s("/p/real/lib.js"))],
    };
    let r = run(&p, "lib", Some("/p/a.ts"), &fs).unwrap().unwrap();
    assert_eq!(r.resolved_path, "/p/real/lib.ts");
    let fs2 = Fs {
        files: strings(&["/p/tsconfig.json", "/p/src/lib.js"]),
        dirs: vec![],
        tsconfigs: vec![(s("/p/tsconfig.json"), tsconfig_json("/p", vec![("*", JsonValue::Array(vec![jstr("src/*.js")]))]))],
        canon: vec![(s("/p/src/lib.js"), s("/p/real/lib.js"))],
    };
    let r = run(&p, "lib", Some("/p/a.ts"), &fs2).unwrap().unwrap();
    assert_eq!(r.resolved_path, "/p/real/lib.js");
}

#[test]
fn plugin_name_and_root() {
    let p = plugin(&[], false);
    assert_eq!(p.name(), "EnhancedTsconfigPaths");
    assert_eq!(p.root_dir(), "/p");
    let d = Options::default();
    assert!(!d.ignore_node_modules && !d.tsconfig_paths.match_all);
    assert!(d.tsconfig_paths.extensions.is_empty() && d.tsconfig_paths.main_fields.is_empty());
}
