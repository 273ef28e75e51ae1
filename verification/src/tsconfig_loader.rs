//! Finding the `tsconfig.json` that governs a directory, and reading its
//! `compilerOptions.baseUrl` and `compilerOptions.paths`.
//!
//! The file system enters as plain values: the set of files known to
//! exist, and the parsed content of the file that was read.
use vstd::prelude::*;
use crate::json::{get_spec, json_view, JsonV, JsonValue};
use crate::path_text::{ancestor_paths, join_path, joined_path, path_parent, paths_equal, same_path};
use crate::text::{text_eq, to_owned_text};

verus! {

/// `a` lists `p` and its ancestors as `Path::ancestors` yields them: `p`
/// first, each next one the parent of the one before, the last one
/// without a parent.
pub open spec fn is_ancestor_chain(p: Seq<char>, a: Seq<Seq<char>>) -> bool {
    &&& a.len() >= 1
    &&& a[0] == p
    &&& forall|i: int| 0 <= i < a.len() - 1 ==> path_parent(#[trigger] a[i]) == Some(a[i + 1])
    &&& path_parent(a.last()) is None
}

/// The path of the tsconfig file of directory `dir`.
pub open spec fn tsconfig_file_in(dir: Seq<char>) -> Seq<char> {
    joined_path(dir, "tsconfig.json"@)
}

pub open spec fn texts_view(v: Vec<String>) -> Seq<Seq<char>> {
    v@.map_values(|s: String| s@)
}

/// The answer recorded in the visit cache `cache` for the directory that is
/// the same path as `dir`, if any.
pub open spec fn cached(cache: Seq<(Seq<char>, bool)>, dir: Seq<char>) -> Option<bool>
    decreases cache.len(),
{
    if cache.len() == 0 {
        None
    } else if same_path(cache[0].0, dir) {
        Some(cache[0].1)
    } else {
        cached(cache.drop_first(), dir)
    }
}

/// The walk up the directory chain `a` from position `i`, with visit cache
/// `cache` and the files `existing`: the directory found, and the cache
/// afterwards.
pub open spec fn closest_spec(
    cache: Seq<(Seq<char>, bool)>,
    a: Seq<Seq<char>>,
    i: int,
    existing: Seq<Seq<char>>,
) -> (Option<Seq<char>>, Seq<(Seq<char>, bool)>)
    decreases a.len() - i,
{
    if i < 0 || i >= a.len() {
        (None, cache)
    } else if i + 1 < a.len() && same_path(a[i + 1], a[i]) {
        (None, cache)
    } else if cached(cache, a[i]) is Some {
        (if cached(cache, a[i]) == Some(true) { Some(a[i]) } else { None }, cache)
    } else if existing.contains(tsconfig_file_in(a[i])) {
        (Some(a[i]), cache.push((a[i], true)))
    } else {
        closest_spec(cache.push((a[i], false)), a, i + 1, existing)
    }
}

/// The nearest directory of `a`, from position `i` on, that holds a
/// tsconfig file.
pub open spec fn nearest_tsconfig_dir(a: Seq<Seq<char>>, i: int, existing: Seq<Seq<char>>) -> Option<
    Seq<char>,
>
    decreases a.len() - i,
{
    if i < 0 || i >= a.len() {
        None
    } else if existing.contains(tsconfig_file_in(a[i])) {
        Some(a[i])
    } else {
        nearest_tsconfig_dir(a, i + 1, existing)
    }
}

proof fn lemma_cached_some(cache: Seq<(Seq<char>, bool)>, dir: Seq<char>)
    ensures
        cached(cache, dir) is Some ==> exists|k: int| 0 <= k < cache.len() && same_path(#[trigger] cache[k].0, dir),
    decreases cache.len(),
{
    if cache.len() > 0 && !same_path(cache[0].0, dir) {
        lemma_cached_some(cache.drop_first(), dir);
        if cached(cache, dir) is Some {
            let k = choose|k: int| 0 <= k < cache.drop_first().len() && same_path(#[trigger] cache.drop_first()[k].0, dir);
            assert(cache[k + 1] == cache.drop_first()[k]);
        }
    }
}

proof fn lemma_cached_none(cache: Seq<(Seq<char>, bool)>, dir: Seq<char>)
    ensures
        cached(cache, dir) is None ==> forall|k: int| 0 <= k < cache.len() ==> !same_path(#[trigger] cache[k].0, dir),
    decreases cache.len(),
{
    if cache.len() > 0 && !same_path(cache[0].0, dir) {
        lemma_cached_none(cache.drop_first(), dir);
        if cached(cache, dir) is None {
            assert forall|k: int| 0 <= k < cache.len() implies !same_path(#[trigger] cache[k].0, dir) by {
                if k > 0 {
                    assert(cache[k] == cache.drop_first()[k - 1]);
                }
            }
        }
    }
}

/// No two entries of the visit cache are the same path.
pub open spec fn cache_distinct(cache: Seq<(Seq<char>, bool)>) -> bool {
    forall|j: int, k: int| 0 <= j < k < cache.len() ==> !same_path(#[trigger] cache[j].0, #[trigger] cache[k].0)
}

/// The walk only records a directory that the cache does not hold yet: a
/// cache in which no two entries are the same path stays so.
pub proof fn lemma_walk_keeps_cache_distinct(
    cache: Seq<(Seq<char>, bool)>,
    a: Seq<Seq<char>>,
    i: int,
    existing: Seq<Seq<char>>,
)
    requires
        cache_distinct(cache),
    ensures
        cache_distinct(closest_spec(cache, a, i, existing).1),
    decreases a.len() - i,
{
    if 0 <= i < a.len() && !(i + 1 < a.len() && same_path(a[i + 1], a[i])) && cached(cache, a[i]) is None {
        lemma_cached_none(cache, a[i]);
        assert forall|found: bool| cache_distinct(#[trigger] cache.push((a[i], found))) by {
            let c = cache.push((a[i], found));
            assert forall|j: int, k: int| 0 <= j < k < c.len() implies !same_path(#[trigger] c[j].0, #[trigger] c[k].0) by {
                assert(c[j] == cache[j]);
                if k < cache.len() {
                    assert(c[k] == cache[k]);
                }
            }
        }
        if !existing.contains(tsconfig_file_in(a[i])) {
            lemma_walk_keeps_cache_distinct(cache.push((a[i], false)), a, i + 1, existing);
        }
    }
}

/// The directory-walk state of the tsconfig lookup: which directories have
/// been visited, and whether each holds a tsconfig file.
pub struct TsconfigLoader {
    visited_dirs: Vec<(String, bool)>,
}

/// What reading a tsconfig file gives: its path, the absolute base URL and
/// the `paths` table.
pub struct TsconfigResult {
    pub config_file_abs_path: String,
    pub absolute_base_url: String,
    pub paths: Vec<(String, Vec<String>)>,
}

pub struct TsconfigResultV {
    pub config_file_abs_path: Seq<char>,
    pub absolute_base_url: Seq<char>,
    pub paths: Seq<(Seq<char>, Seq<Seq<char>>)>,
}

pub open spec fn paths_view(p: Vec<(String, Vec<String>)>) -> Seq<(Seq<char>, Seq<Seq<char>>)> {
    p@.map_values(|e: (String, Vec<String>)| (e.0@, texts_view(e.1)))
}

impl View for TsconfigResult {
    type V = TsconfigResultV;

    open spec fn view(&self) -> TsconfigResultV {
        TsconfigResultV {
            config_file_abs_path: self.config_file_abs_path@,
            absolute_base_url: self.absolute_base_url@,
            paths: paths_view(self.paths),
        }
    }
}

/// Where reading a tsconfig file stops the build: a `paths` entry that is
/// not an array, or an array item that is not a string.
#[derive(PartialEq, Eq, Structural, Debug, Clone, Copy)]
pub enum TsconfigError {
    PathsEntryNotArray,
    PathsItemNotString,
}

/// The strings of the array items `items`, or where one is not a string.
pub open spec fn string_items(items: Seq<JsonV>) -> Result<Seq<Seq<char>>, TsconfigError>
    decreases items.len(),
{
    if items.len() == 0 {
        Ok(Seq::empty())
    } else {
        match string_items(items.drop_last()) {
            Ok(s) => match items.last() {
                JsonV::String(t) => Ok(s.push(t)),
                _ => Err(TsconfigError::PathsItemNotString),
            },
            Err(e) => Err(e),
        }
    }
}

/// The `paths` table of the members `m`, or where it does not hold
/// arrays of strings.
pub open spec fn paths_table(m: Seq<(Seq<char>, JsonV)>) -> Result<
    Seq<(Seq<char>, Seq<Seq<char>>)>,
    TsconfigError,
>
    decreases m.len(),
{
    if m.len() == 0 {
        Ok(Seq::empty())
    } else {
        match paths_table(m.drop_last()) {
            Ok(t) => match m.last().1 {
                JsonV::Array(items) => match string_items(items) {
                    Ok(s) => Ok(t.push((m.last().0, s))),
                    Err(e) => Err(e),
                },
                _ => Err(TsconfigError::PathsEntryNotArray),
            },
            Err(e) => Err(e),
        }
    }
}

/// No key occurs twice in `t`.
pub open spec fn keys_distinct<V>(t: Seq<(Seq<char>, V)>) -> bool {
    forall|j: int, k: int| 0 <= j < k < t.len() ==> #[trigger] t[j].0 != #[trigger] t[k].0
}

/// The `paths` table has the keys of the `paths` object, in their order:
/// an object whose keys are distinct, as those of a parsed JSON object are,
/// gives a table whose keys are distinct.
pub proof fn lemma_paths_table_keys(m: Seq<(Seq<char>, JsonV)>)
    ensures
        paths_table(m) matches Ok(t) ==> t.len() == m.len() && forall|i: int|
            0 <= i < m.len() ==> (#[trigger] t[i]).0 == m[i].0,
        paths_table(m) matches Ok(t) ==> (keys_distinct(m) ==> keys_distinct(t)),
    decreases m.len(),
{
    if m.len() > 0 {
        lemma_paths_table_keys(m.drop_last());
        if let Ok(t) = paths_table(m) {
            let t0 = paths_table(m.drop_last())->Ok_0;
            assert forall|i: int| 0 <= i < m.len() implies (#[trigger] t[i]).0 == m[i].0 by {
                if i < m.len() - 1 {
                    assert(t[i] == t0[i]);
                    assert(m[i] == m.drop_last()[i]);
                }
            }
            if keys_distinct(m) {
                assert forall|j: int, k: int| 0 <= j < k < t.len() implies #[trigger] t[j].0 != #[trigger] t[k].0 by {
                    assert(t[j].0 == m[j].0 && t[k].0 == m[k].0);
                }
            }
        }
    }
}

/// What reading the tsconfig file of `dir` gives when its content parsed
/// to `json`: nothing when `compilerOptions.baseUrl` is missing or not a
/// string, or `compilerOptions.paths` is missing or not an object; an
/// error where `paths` holds something else than arrays of strings.
pub open spec fn load_spec(dir: Seq<char>, json: JsonV) -> Result<Option<TsconfigResultV>, TsconfigError> {
    match get_spec(json, "compilerOptions"@) {
        None => Ok(None),
        Some(co) => match get_spec(co, "baseUrl"@) {
            Some(JsonV::String(base)) => match get_spec(co, "paths"@) {
                Some(JsonV::Object(m)) => match paths_table(m) {
                    Ok(t) => Ok(
                        Some(
                            TsconfigResultV {
                                config_file_abs_path: tsconfig_file_in(dir),
                                absolute_base_url: joined_path(dir, base),
                                paths: t,
                            },
                        ),
                    ),
                    Err(e) => Err(e),
                },
                _ => Ok(None),
            },
            _ => Ok(None),
        },
    }
}

impl TsconfigLoader {
    spec fn entries(self) -> Seq<(Seq<char>, bool)> {
        self.visited_dirs@.map_values(|e: (String, bool)| (e.0@, e.1))
    }

    /// The visit cache: each visited directory, in the order of the visits,
    /// with whether it holds a tsconfig file.
    pub closed spec fn cache(self) -> Seq<(Seq<char>, bool)> {
        self.entries()
    }

    /// A loader that has visited nothing.
    pub fn new() -> (r: Self)
        ensures
            r.cache() == Seq::<(Seq<char>, bool)>::empty(),
    {
        let r = TsconfigLoader { visited_dirs: Vec::new() };
        assert(r.entries() =~= Seq::<(Seq<char>, bool)>::empty());
        r
    }

    /// A copy with the same cache.
    pub fn clone_loader(&self) -> (r: Self)
        ensures
            r.cache() == self.cache(),
    {
        let mut v: Vec<(String, bool)> = Vec::new();
        let mut i: usize = 0;
        while i < self.visited_dirs.len()
            invariant
                i <= self.visited_dirs@.len(),
                v@.len() == i,
                forall|j: int|
                    0 <= j < i ==> (#[trigger] v@[j]).0@ == self.visited_dirs@[j].0@ && v@[j].1
                        == self.visited_dirs@[j].1,
            decreases self.visited_dirs@.len() - i,
        {
            let (d, f) = (to_owned_text(self.visited_dirs[i].0.as_str()), self.visited_dirs[i].1);
            v.push((d, f));
            i = i + 1;
        }
        assert(v@.map_values(|e: (String, bool)| (e.0@, e.1)) =~= self.entries());
        let r = TsconfigLoader { visited_dirs: v };
        r
    }

    /// The cached answer for `dir`, if a directory that is the same path
    /// was visited.
    fn lookup(&self, dir: &str) -> (r: Option<bool>)
        ensures
            r == cached(self.cache(), dir@),
    {
        let ghost c = self.cache();
        let mut i: usize = 0;
        assert(c.subrange(0, c.len() as int) =~= c);
        while i < self.visited_dirs.len()
            invariant
                i <= self.visited_dirs@.len(),
                c == self.cache(),
                c.len() == self.visited_dirs@.len(),
                cached(c, dir@) == cached(c.subrange(i as int, c.len() as int), dir@),
            decreases self.visited_dirs@.len() - i,
        {
            let ghost sub = c.subrange(i as int, c.len() as int);
            assert(sub[0] == (self.visited_dirs@[i as int].0@, self.visited_dirs@[i as int].1));
            if paths_equal(self.visited_dirs[i].0.as_str(), dir) {
                return Some(self.visited_dirs[i].1);
            }
            assert(sub.drop_first() =~= c.subrange(i + 1, c.len() as int));
            i = i + 1;
        }
        None
    }

    /// Records that `dir` was visited and whether it holds a tsconfig file.
    fn insert(&mut self, dir: String, found: bool)
        ensures
            final(self).cache() == old(self).cache().push((dir@, found)),
    {
        let ghost before = self.entries();
        let ghost k = dir@;
        self.visited_dirs.push((dir, found));
        assert(self.entries() =~= before.push((k, found)));
    }

    /// The nearest directory from `cwd` upwards that holds `tsconfig.json`,
    /// given the files `existing_files` that exist. Visited directories are
    /// remembered; a directory remembered as holding no tsconfig file ends
    /// the walk with `None`.
    pub fn get_closest_tsconfig_dir(&mut self, cwd: &str, existing_files: &Vec<String>) -> (r: Option<
        String,
    >)
        ensures
            exists|a: Seq<Seq<char>>| is_ancestor_chain(cwd@, a),
            forall|a: Seq<Seq<char>>|
                is_ancestor_chain(cwd@, a) ==> closest_spec(old(self).cache(), a, 0, texts_view(*existing_files))
                    == (match r {
                    Some(d) => Some(d@),
                    None => None::<Seq<char>>,
                }, final(self).cache()),
            forall|a: Seq<Seq<char>>|
                is_ancestor_chain(cwd@, a) && old(self).cache().len() == 0 ==> match r {
                    Some(d) => nearest_tsconfig_dir(a, 0, texts_view(*existing_files)) == Some(d@),
                    None => nearest_tsconfig_dir(a, 0, texts_view(*existing_files)) is None,
                },
            cache_distinct(old(self).cache()) ==> cache_distinct(final(self).cache()),
    {
        let anc = ancestor_paths(cwd);
        let ghost a = texts_view(anc);
        let ghost ex = texts_view(*existing_files);
        let ghost c0 = self.cache();
        proof {
            assert(is_ancestor_chain(cwd@, a));
        }
        let n = anc.len();
        let mut i: usize = 0;
        let mut result: Option<String> = None;
        while i < n
            invariant_except_break
                i <= n,
                n == anc@.len(),
                a == texts_view(anc),
                ex == texts_view(*existing_files),
                result is None,
                closest_spec(c0, a, 0, ex) == closest_spec(self.cache(), a, i as int, ex),
            ensures
                closest_spec(c0, a, 0, ex) == (match result {
                    Some(d) => Some(d@),
                    None => None::<Seq<char>>,
                }, self.cache()),
            decreases n - i,
        {
            let dir = anc[i].as_str();
            assert(dir@ == a[i as int]);
            if i + 1 < n && paths_equal(anc[i + 1].as_str(), dir) {
                assert(a[i + 1] == anc@[i + 1]@);
                result = None;
                break;
            }
            proof {
                if i + 1 < n {
                    assert(a[i + 1] == anc@[i + 1]@);
                }
            }
            match self.lookup(dir) {
                Some(found) => {
                    result = if found { Some(to_owned_text(dir)) } else { None };
                    break;
                },
                None => {},
            }
            let probe = join_path(dir, "tsconfig.json");
            if contains_path(existing_files, probe.as_str()) {
                self.insert(to_owned_text(dir), true);
                result = Some(to_owned_text(dir));
                break;
            }
            self.insert(to_owned_text(dir), false);
            i = i + 1;
        }
        proof {
            assert forall|b: Seq<Seq<char>>| is_ancestor_chain(cwd@, b) implies b == a by {
                lemma_ancestor_chain_unique(cwd@, a, b);
            }
            if c0.len() == 0 {
                assert forall|j: int, k: int| 0 <= j < a.len() && 0 <= k < a.len() && j != k implies !same_path(
                    a[j],
                    a[k],
                ) by {
                    assert(a[j] == anc@[j]@ && a[k] == anc@[k]@);
                }
                assert(c0 =~= Seq::<(Seq<char>, bool)>::empty());
                lemma_closest_from_empty_is_nearest(a, ex);
            }
            if cache_distinct(c0) {
                lemma_walk_keeps_cache_distinct(c0, a, 0, ex);
            }
        }
        result
    }

    /// Finds the tsconfig file that governs `cwd` and reads it, given the
    /// files `existing_files` that exist and the parsed content of the
    /// tsconfig files that could be read (`tsconfigs`, by path). Nothing
    /// when no tsconfig file is found, when the one found could not be read,
    /// or when it lacks a string `baseUrl` or an object `paths`. An error
    /// exactly where the content found stops the build: a `paths` value
    /// that is not an array of strings.
    pub fn load(
        &mut self,
        cwd: &str,
        existing_files: &Vec<String>,
        tsconfigs: &Vec<(String, JsonValue)>,
    ) -> (r: Result<Option<TsconfigResult>, TsconfigError>)
        ensures
            exists|a: Seq<Seq<char>>| is_ancestor_chain(cwd@, a),
            forall|a: Seq<Seq<char>>|
                is_ancestor_chain(cwd@, a) ==> {
                    let (found, cache) = closest_spec(old(self).cache(), a, 0, texts_view(*existing_files));
                    &&& final(self).cache() == cache
                    &&& match found {
                        None => r == Ok::<Option<TsconfigResult>, TsconfigError>(None),
                        Some(dir) => match content_of(tsconfigs_view(*tsconfigs), tsconfig_file_in(dir)) {
                            None => r == Ok::<Option<TsconfigResult>, TsconfigError>(None),
                            Some(json) => match r {
                                Ok(Some(t)) => load_spec(dir, json) == Ok::<_, TsconfigError>(Some(t@)),
                                Ok(None) => load_spec(dir, json) == Ok::<_, TsconfigError>(None::<TsconfigResultV>),
                                Err(e) => load_spec(dir, json) == Err::<Option<TsconfigResultV>, _>(e),
                            },
                        },
                    }
                },
            cache_distinct(old(self).cache()) ==> cache_distinct(final(self).cache()),
    {
        let dir = match self.get_closest_tsconfig_dir(cwd, existing_files) {
            Some(d) => d,
            None => return Ok(None),
        };
        let path = join_path(dir.as_str(), "tsconfig.json");
        let ghost tv = tsconfigs_view(*tsconfigs);
        let mut i: usize = 0;
        assert(tv.subrange(0, tv.len() as int) =~= tv);
        #[verifier::loop_isolation(false)]
        while i < tsconfigs.len()
            invariant
                i <= tsconfigs@.len(),
                tv == tsconfigs_view(*tsconfigs),
                content_of(tv, path@) == content_of(tv.subrange(i as int, tv.len() as int), path@),
            decreases tsconfigs@.len() - i,
        {
            let ghost sub = tv.subrange(i as int, tv.len() as int);
            assert(sub[0] == (tsconfigs@[i as int].0@, json_view(tsconfigs@[i as int].1)));
            if text_eq(tsconfigs[i].0.as_str(), path.as_str()) {
                return read_tsconfig(dir.as_str(), &tsconfigs[i].1);
            }
            assert(sub.drop_first() =~= tv.subrange(i + 1, tv.len() as int));
            i = i + 1;
        }
        Ok(None)
    }

    /// Reads the tsconfig file of `dir`, whose content parsed to `json`:
    /// its path, `compilerOptions.baseUrl` joined to `dir`, and the
    /// `compilerOptions.paths` table; nothing when `baseUrl` is missing or
    /// not a string, or `paths` is missing or not an object. The content
    /// must not hold a `paths` table with a value that is not an array of
    /// strings (see `tsconfig_error_of`): reading one stops the build.
    pub fn load_from(dir: &str, json: &JsonValue) -> (r: Option<TsconfigResult>)
        requires
            tsconfig_error(json@) is None,
        ensures
            match r {
                Some(t) => load_spec(dir@, json@) == Ok::<_, TsconfigError>(Some(t@)),
                None => load_spec(dir@, json@) == Ok::<_, TsconfigError>(None::<TsconfigResultV>),
            },
    {
        match read_tsconfig(dir, json) {
            Ok(x) => x,
            Err(_) => {
                assert(load_spec(dir@, json@) is Err);
                assert(false);
                None
            },
        }
    }

    /// Where reading tsconfig content `json` stops the build: a `paths`
    /// table (under a string `baseUrl`) with a value that is not an array,
    /// or an array item that is not a string; `None` when it does not.
    pub fn tsconfig_error_of(json: &JsonValue) -> (r: Option<TsconfigError>)
        ensures
            r == tsconfig_error(json@),
    {
        let co = match json.get("compilerOptions") {
            Some(c) => c,
            None => return None,
        };
        match co.get("baseUrl") {
            Some(b) => match b.as_str() {
                Some(_) => {},
                None => return None,
            },
            None => return None,
        }
        let paths = match co.get("paths") {
            Some(p) => p,
            None => return None,
        };
        let members = match paths {
            JsonValue::Object(m) => m,
            _ => {
                assert(!(json_view(*paths) is Object));
                return None;
            },
        };
        assert(json_view(*paths) == JsonV::Object(json_view(*paths)->Object_0));
        assert(json_view(*paths)->Object_0 =~= json_members_view(*members));
        match paths_from_members(members) {
            Ok(_) => None,
            Err(e) => Some(e),
        }
    }
}

/// Where reading tsconfig content `json` stops the build, if it does.
pub open spec fn tsconfig_error(json: JsonV) -> Option<TsconfigError> {
    match load_spec(Seq::empty(), json) {
        Err(e) => Some(e),
        Ok(_) => None,
    }
}

/// Reads the tsconfig file of `dir`, whose content parsed to `json`, or
/// says where that stops the build.
fn read_tsconfig(dir: &str, json: &JsonValue) -> (r: Result<Option<TsconfigResult>, TsconfigError>)
    ensures
        match r {
            Ok(Some(t)) => load_spec(dir@, json@) == Ok::<_, TsconfigError>(Some(t@)),
            Ok(None) => load_spec(dir@, json@) == Ok::<_, TsconfigError>(None::<TsconfigResultV>),
            Err(e) => load_spec(dir@, json@) == Err::<Option<TsconfigResultV>, _>(e),
        },
{
    let tsconfig_path = join_path(dir, "tsconfig.json");
    let co = match json.get("compilerOptions") {
        Some(c) => c,
        None => return Ok(None),
    };
    let base_url = match co.get("baseUrl") {
        Some(b) => match b.as_str() {
            Some(s) => s,
            None => return Ok(None),
        },
        None => return Ok(None),
    };
    let paths = match co.get("paths") {
        Some(p) => p,
        None => return Ok(None),
    };
    let absolute_base_url = join_path(dir, base_url.as_str());
    let members = match paths {
        JsonValue::Object(m) => m,
        _ => {
            assert(!(json_view(*paths) is Object));
            return Ok(None);
        },
    };
    assert(json_view(*paths) == JsonV::Object(json_view(*paths)->Object_0));
    assert(json_view(*paths)->Object_0 =~= json_members_view(*members));
    match paths_from_members(members) {
        Ok(table) => {
            let r = TsconfigResult { config_file_abs_path: tsconfig_path, absolute_base_url, paths: table };
            assert(r@.paths == paths_view(table));
            Ok(Some(r))
        },
        Err(e) => Err(e),
    }
}

/// The `paths` table of the object members `members`.
fn paths_from_members(members: &Vec<(String, JsonValue)>) -> (r: Result<Vec<(String, Vec<String>)>, TsconfigError>)
    ensures
        match r {
            Ok(t) => paths_table(json_members_view(*members)) == Ok::<_, TsconfigError>(paths_view(t)),
            Err(e) => paths_table(json_members_view(*members)) == Err::<Seq<(Seq<char>, Seq<Seq<char>>)>, _>(e),
        },
{
    let ghost mv = json_members_view(*members);
    let mut out: Vec<(String, Vec<String>)> = Vec::new();
    let mut i: usize = 0;
    assert(mv.subrange(0, 0) =~= Seq::<(Seq<char>, JsonV)>::empty());
    assert(paths_view(out) =~= Seq::<(Seq<char>, Seq<Seq<char>>)>::empty());
    while i < members.len()
        invariant
            i <= members@.len(),
            mv == json_members_view(*members),
            paths_table(mv.subrange(0, i as int)) == Ok::<_, TsconfigError>(paths_view(out)),
        decreases members@.len() - i,
    {
        let ghost prefix = mv.subrange(0, i as int);
        let ghost next = mv.subrange(0, i + 1);
        assert(next.drop_last() =~= prefix);
        assert(next.last() == mv[i as int]);
        assert(mv[i as int] == (members@[i as int].0@, json_view(members@[i as int].1)));
        let (key, value) = (&members[i].0, &members[i].1);
        let items = match value {
            JsonValue::Array(items) => items,
            _ => {
                assert(!(json_view(*value) is Array));
                proof {
                    lemma_paths_err_extends(mv, (i + 1) as int, TsconfigError::PathsEntryNotArray);
                }
                return Err(TsconfigError::PathsEntryNotArray);
            },
        };
        assert(json_view(*value) == JsonV::Array(json_view(*value)->Array_0));
        assert(json_view(*value)->Array_0 =~= json_items_view(*items));
        let strings = match strings_from_items(items) {
            Ok(x) => x,
            Err(e) => {
                proof {
                    lemma_paths_err_extends(mv, (i + 1) as int, e);
                }
                return Err(e);
            },
        };
        let ghost before = paths_view(out);
        out.push((to_owned_text(key.as_str()), strings));
        assert(paths_view(out) =~= before.push((key@, texts_view(strings))));
        i = i + 1;
    }
    assert(mv.subrange(0, i as int) =~= mv);
    Ok(out)
}

pub open spec fn tsconfigs_view(v: Vec<(String, JsonValue)>) -> Seq<(Seq<char>, JsonV)> {
    v@.map_values(|e: (String, JsonValue)| (e.0@, json_view(e.1)))
}

/// The content recorded first for the file `path`.
pub open spec fn content_of(files: Seq<(Seq<char>, JsonV)>, path: Seq<char>) -> Option<JsonV>
    decreases files.len(),
{
    if files.len() == 0 {
        None
    } else if files[0].0 == path {
        Some(files[0].1)
    } else {
        content_of(files.drop_first(), path)
    }
}

pub open spec fn json_members_view(m: Vec<(String, JsonValue)>) -> Seq<(Seq<char>, JsonV)> {
    Seq::new(m@.len(), |i: int| (m@[i].0@, json_view(m@[i].1)))
}

pub open spec fn json_items_view(a: Vec<JsonValue>) -> Seq<JsonV> {
    Seq::new(a@.len(), |i: int| json_view(a@[i]))
}

/// The strings of the array items `items`.
fn strings_from_items(items: &Vec<JsonValue>) -> (r: Result<Vec<String>, TsconfigError>)
    ensures
        match r {
            Ok(s) => string_items(json_items_view(*items)) == Ok::<_, TsconfigError>(texts_view(s)),
            Err(e) => string_items(json_items_view(*items)) == Err::<Seq<Seq<char>>, _>(e),
        },
{
    let ghost iv = json_items_view(*items);
    let mut out: Vec<String> = Vec::new();
    let mut i: usize = 0;
    assert(iv.subrange(0, 0) =~= Seq::<JsonV>::empty());
    assert(texts_view(out) =~= Seq::<Seq<char>>::empty());
    while i < items.len()
        invariant
            i <= items@.len(),
            iv == json_items_view(*items),
            string_items(iv.subrange(0, i as int)) == Ok::<_, TsconfigError>(texts_view(out)),
        decreases items@.len() - i,
    {
        let ghost next = iv.subrange(0, i + 1);
        assert(next.drop_last() =~= iv.subrange(0, i as int));
        assert(next.last() == json_view(items@[i as int]));
        match &items[i] {
            JsonValue::String(s) => {
                let ghost before = texts_view(out);
                out.push(to_owned_text(s.as_str()));
                assert(texts_view(out) =~= before.push(s@));
            },
            _ => {
                assert(!(json_view(items@[i as int]) is String));
                proof {
                    lemma_items_err_extends(iv, (i + 1) as int, TsconfigError::PathsItemNotString);
                }
                return Err(TsconfigError::PathsItemNotString);
            },
        }
        i = i + 1;
    }
    assert(iv.subrange(0, i as int) =~= iv);
    Ok(out)
}

proof fn lemma_items_err_extends(items: Seq<JsonV>, k: int, e: TsconfigError)
    requires
        0 <= k <= items.len(),
        string_items(items.subrange(0, k)) == Err::<Seq<Seq<char>>, _>(e),
    ensures
        string_items(items) == Err::<Seq<Seq<char>>, _>(e),
    decreases items.len() - k,
{
    if k == items.len() {
        assert(items.subrange(0, k) =~= items);
    } else {
        let next = items.subrange(0, k + 1);
        assert(next.drop_last() =~= items.subrange(0, k));
        lemma_items_err_extends(items, k + 1, e);
    }
}

proof fn lemma_paths_err_extends(m: Seq<(Seq<char>, JsonV)>, k: int, e: TsconfigError)
    requires
        0 <= k <= m.len(),
        paths_table(m.subrange(0, k)) == Err::<Seq<(Seq<char>, Seq<Seq<char>>)>, _>(e),
    ensures
        paths_table(m) == Err::<Seq<(Seq<char>, Seq<Seq<char>>)>, _>(e),
    decreases m.len() - k,
{
    if k == m.len() {
        assert(m.subrange(0, k) =~= m);
    } else {
        let next = m.subrange(0, k + 1);
        assert(next.drop_last() =~= m.subrange(0, k));
        lemma_paths_err_extends(m, k + 1, e);
    }
}

/// Whether `path` is one of `files`.
pub fn contains_path(files: &Vec<String>, path: &str) -> (r: bool)
    ensures
        r == texts_view(*files).contains(path@),
{
    let mut i: usize = 0;
    while i < files.len()
        invariant
            i <= files@.len(),
            forall|j: int| 0 <= j < i ==> files@[j]@ != path@,
        decreases files@.len() - i,
    {
        if text_eq(files[i].as_str(), path) {
            assert(texts_view(*files)[i as int] == path@);
            return true;
        }
        i = i + 1;
    }
    proof {
        if texts_view(*files).contains(path@) {
            let k = choose|k: int| 0 <= k < texts_view(*files).len() && texts_view(*files)[k] == path@;
            assert(files@[k]@ == path@);
        }
    }
    false
}

proof fn lemma_walk_finds_nearest(
    cache: Seq<(Seq<char>, bool)>,
    a: Seq<Seq<char>>,
    i: int,
    existing: Seq<Seq<char>>,
)
    requires
        0 <= i <= a.len(),
        forall|j: int, k: int| 0 <= j < a.len() && 0 <= k < a.len() && j != k ==> !same_path(a[j], a[k]),
        forall|m: int| 0 <= m < cache.len() ==> exists|j: int| 0 <= j < i && a[j] == #[trigger] cache[m].0,
    ensures
        closest_spec(cache, a, i, existing).0 == nearest_tsconfig_dir(a, i, existing),
    decreases a.len() - i,
{
    if i < a.len() {
        lemma_cached_some(cache, a[i]);
        if cached(cache, a[i]) is Some {
            let m = choose|m: int| 0 <= m < cache.len() && same_path(#[trigger] cache[m].0, a[i]);
            let j = choose|j: int| 0 <= j < i && a[j] == #[trigger] cache[m].0;
            assert(!same_path(a[j], a[i]));
            assert(false);
        }
        if i + 1 < a.len() {
            assert(!same_path(a[i + 1], a[i]));
        }
        if !existing.contains(tsconfig_file_in(a[i])) {
            let next = cache.push((a[i], false));
            assert forall|m: int| 0 <= m < next.len() implies exists|j: int|
                0 <= j < i + 1 && a[j] == #[trigger] next[m].0 by {
                if m < cache.len() {
                    assert(next[m] == cache[m]);
                    let j = choose|j: int| 0 <= j < i && a[j] == #[trigger] cache[m].0;
                    assert(0 <= j < i + 1 && a[j] == next[m].0);
                } else {
                    assert(a[i] == next[m].0);
                }
            }
            lemma_walk_finds_nearest(next, a, i + 1, existing);
        }
    }
}

/// From a loader that has visited nothing, the walk up a chain of
/// directories no two of which are the same path finds the nearest one that
/// holds a tsconfig file.
pub proof fn lemma_closest_from_empty_is_nearest(a: Seq<Seq<char>>, existing: Seq<Seq<char>>)
    requires
        forall|j: int, k: int| 0 <= j < a.len() && 0 <= k < a.len() && j != k ==> !same_path(a[j], a[k]),
    ensures
        closest_spec(Seq::empty(), a, 0, existing).0 == nearest_tsconfig_dir(a, 0, existing),
{
    lemma_walk_finds_nearest(Seq::empty(), a, 0, existing);
}

/// A path has one ancestor chain.
pub proof fn lemma_ancestor_chain_unique(p: Seq<char>, a: Seq<Seq<char>>, b: Seq<Seq<char>>)
    requires
        is_ancestor_chain(p, a),
        is_ancestor_chain(p, b),
    ensures
        a == b,
{
    assert forall|i: int| 0 <= i < a.len() && i < b.len() implies a[i] == b[i] by {
        lemma_chain_prefix_equal(p, a, b, i);
    }
    if a.len() < b.len() {
        let k = a.len() - 1;
        lemma_chain_prefix_equal(p, a, b, k);
        assert(path_parent(b[k]) == Some(b[k + 1]));
    } else if b.len() < a.len() {
        let k = b.len() - 1;
        lemma_chain_prefix_equal(p, a, b, k);
        assert(path_parent(a[k]) == Some(a[k + 1]));
    }
    assert(a =~= b);
}

proof fn lemma_chain_prefix_equal(p: Seq<char>, a: Seq<Seq<char>>, b: Seq<Seq<char>>, i: int)
    requires
        is_ancestor_chain(p, a),
        is_ancestor_chain(p, b),
        0 <= i < a.len(),
        i < b.len(),
    ensures
        a[i] == b[i],
    decreases i,
{
    if i > 0 {
        lemma_chain_prefix_equal(p, a, b, i - 1);
        assert(path_parent(a[i - 1]) == Some(a[i]));
        assert(path_parent(b[i - 1]) == Some(b[i]));
    }
}

} // verus!
