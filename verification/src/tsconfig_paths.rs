//! The tsconfig-paths resolver: its options, and the resolution of one
//! import as a state machine.
//!
//! Resolving an import alternates between decisions and questions about the
//! file system (which files exist, what a tsconfig file holds, the canonical
//! form of a path, whether a path is a directory). `Resolution` holds the
//! decisions: `next_step` says what it needs to know or how it ended, and
//! `advance` takes the answer. The caller performs the file-system work.
use vstd::prelude::*;
use crate::json::{json_view, JsonV, JsonValue};
use crate::path_matcher::{
    first_existing, first_existing_of, keys_valid, match_candidates, substitutions_valid, PathMatcher,
    PathMatcherV,
};
use crate::path_text::{
    ancestor_paths, file_stem_of, join_path, joined_path, parent_path, path_file_stem, path_parent,
};
use crate::text::{concat_text, contains_text, first_char_is, occurs_in, to_owned_text};
use crate::tsconfig_loader::{
    cache_distinct, closest_spec, contains_path, is_ancestor_chain, lemma_ancestor_chain_unique,
    lemma_walk_keeps_cache_distinct, load_spec, texts_view, tsconfig_file_in, TsconfigError, TsconfigLoader,
};

verus! {

/// The `tsconfigPaths` part of the plugin options.
pub struct TsconfigPathsOptions {
    pub main_fields: Vec<String>,
    pub extensions: Vec<String>,
    pub match_all: bool,
}

/// The plugin options.
pub struct Options {
    pub ignore_node_modules: bool,
    pub tsconfig_paths: TsconfigPathsOptions,
}

impl Default for TsconfigPathsOptions {
    fn default() -> (r: Self)
        ensures
            r.main_fields@.len() == 0,
            r.extensions@.len() == 0,
            !r.match_all,
    {
        TsconfigPathsOptions { main_fields: Vec::new(), extensions: Vec::new(), match_all: false }
    }
}

impl Default for Options {
    fn default() -> (r: Self)
        ensures
            !r.ignore_node_modules,
            r.tsconfig_paths.main_fields@.len() == 0,
            r.tsconfig_paths.extensions@.len() == 0,
            !r.tsconfig_paths.match_all,
    {
        Options { ignore_node_modules: false, tsconfig_paths: TsconfigPathsOptions::default() }
    }
}

/// A resolved import.
pub struct ResolveResult {
    pub resolved_path: String,
    pub external: bool,
    pub side_effects: bool,
    pub query: Vec<(String, String)>,
    pub meta: Vec<(String, String)>,
}

/// `result` resolves to `path`: not external, with side effects, no query,
/// no meta data.
pub open spec fn resolves_to(result: ResolveResult, path: Seq<char>) -> bool {
    &&& result.resolved_path@ == path
    &&& !result.external
    &&& result.side_effects
    &&& result.query@.len() == 0
    &&& result.meta@.len() == 0
}

fn result_for(path: &str) -> (r: ResolveResult)
    ensures
        resolves_to(r, path@),
{
    ResolveResult {
        resolved_path: to_owned_text(path),
        external: false,
        side_effects: true,
        query: Vec::new(),
        meta: Vec::new(),
    }
}

/// Where resolving stops the build.
#[derive(PartialEq, Eq, Structural, Debug, Clone, Copy)]
pub enum ResolveFailure {
    /// The importer's path has no parent directory.
    ImporterWithoutDirectory,
    /// The tsconfig `paths` table holds something else than arrays of
    /// strings.
    Tsconfig(TsconfigError),
    /// A substitution of the `paths` table is not a glob pattern.
    InvalidSubstitution,
    /// Matching reached a key of the `paths` table that is not a glob
    /// pattern before it found a file.
    InvalidKey,
}

/// What the resolution needs to know next, or how it ended.
pub enum ResolveStep {
    /// Which of these files exist? Answer with `Answer::Files`.
    ProbeFiles(Vec<String>),
    /// What does this tsconfig file parse to? Answer with
    /// `Answer::Tsconfig`, `None` when it cannot be read or parsed.
    ReadTsconfig(String),
    /// What is the canonical form of this path? Answer with
    /// `Answer::Canonical`, `None` when it has none.
    Canonicalize(String),
    /// Is this path a directory? Answer with `Answer::IsDir`.
    CheckDir(String),
    /// Resolution ended with this result.
    Done(Option<ResolveResult>),
    /// Resolution stops the build.
    Failed(ResolveFailure),
}

/// An answer from the file system.
pub enum Answer {
    /// The probed files that exist.
    Files(Vec<String>),
    Tsconfig(Option<JsonValue>),
    Canonical(Option<String>),
    IsDir(bool),
}

pub enum AnswerV {
    Files(Seq<Seq<char>>),
    Tsconfig(Option<JsonV>),
    Canonical(Option<Seq<char>>),
    IsDir(bool),
}

pub open spec fn answer_view(a: Answer) -> AnswerV {
    match a {
        Answer::Files(v) => AnswerV::Files(texts_view(v)),
        Answer::Tsconfig(j) => AnswerV::Tsconfig(
            match j {
                Some(x) => Some(json_view(x)),
                None => None,
            },
        ),
        Answer::Canonical(c) => AnswerV::Canonical(
            match c {
                Some(x) => Some(x@),
                None => None,
            },
        ),
        Answer::IsDir(b) => AnswerV::IsDir(b),
    }
}

pub enum StepV {
    ProbeFiles(Seq<Seq<char>>),
    ReadTsconfig(Seq<char>),
    Canonicalize(Seq<char>),
    CheckDir(Seq<char>),
    Done(Option<Seq<char>>),
    Failed(ResolveFailure),
}

/// `step` is what `s` says, results taken by the path they resolve to.
pub open spec fn step_is(step: ResolveStep, s: StepV) -> bool {
    match step {
        ResolveStep::ProbeFiles(v) => s == StepV::ProbeFiles(texts_view(v)),
        ResolveStep::ReadTsconfig(p) => s == StepV::ReadTsconfig(p@),
        ResolveStep::Canonicalize(p) => s == StepV::Canonicalize(p@),
        ResolveStep::CheckDir(p) => s == StepV::CheckDir(p@),
        ResolveStep::Done(None) => s == StepV::Done(None),
        ResolveStep::Done(Some(r)) => s matches StepV::Done(Some(p)) && resolves_to(r, p),
        ResolveStep::Failed(f) => s == StepV::Failed(f),
    }
}

/// Where a resolution stands.
pub enum Phase {
    FindTsconfig { importer_dir: String },
    ReadTsconfig { dir: String },
    /// The candidates of the table entries that matching reached;
    /// `key_error` where it stopped at a key that is no glob pattern.
    MatchPath { candidates: Vec<String>, key_error: bool },
    ProbeExtensions { found: String },
    Canonicalize { found: String },
    CheckDir { abs: String },
    ProbeIndex { abs: String },
    CheckResolved { resolved: String },
    ProbeStem { resolved: String },
    Done(Option<String>),
    Failed(ResolveFailure),
}

pub enum PhaseV {
    FindTsconfig(Seq<char>),
    ReadTsconfig(Seq<char>),
    MatchPath(Seq<Seq<char>>, bool),
    ProbeExtensions(Seq<char>),
    Canonicalize(Seq<char>),
    CheckDir(Seq<char>),
    ProbeIndex(Seq<char>),
    CheckResolved(Seq<char>),
    ProbeStem(Seq<char>),
    Done(Option<Seq<char>>),
    Failed(ResolveFailure),
}

pub open spec fn phase_view(p: Phase) -> PhaseV {
    match p {
        Phase::FindTsconfig { importer_dir } => PhaseV::FindTsconfig(importer_dir@),
        Phase::ReadTsconfig { dir } => PhaseV::ReadTsconfig(dir@),
        Phase::MatchPath { candidates, key_error } => PhaseV::MatchPath(texts_view(candidates), key_error),
        Phase::ProbeExtensions { found } => PhaseV::ProbeExtensions(found@),
        Phase::Canonicalize { found } => PhaseV::Canonicalize(found@),
        Phase::CheckDir { abs } => PhaseV::CheckDir(abs@),
        Phase::ProbeIndex { abs } => PhaseV::ProbeIndex(abs@),
        Phase::CheckResolved { resolved } => PhaseV::CheckResolved(resolved@),
        Phase::ProbeStem { resolved } => PhaseV::ProbeStem(resolved@),
        Phase::Done(r) => PhaseV::Done(
            match r {
                Some(s) => Some(s@),
                None => None,
            },
        ),
        Phase::Failed(f) => PhaseV::Failed(f),
    }
}

/// The mathematical view of a resolution.
pub struct ResolutionV {
    pub request: Seq<char>,
    pub main_fields: Seq<Seq<char>>,
    pub extensions: Seq<Seq<char>>,
    pub match_all: bool,
    pub cache: Seq<(Seq<char>, bool)>,
    pub phase: PhaseV,
}

/// The resolution of one import.
pub struct Resolution {
    request: String,
    main_fields: Vec<String>,
    extensions: Vec<String>,
    match_all: bool,
    loader: TsconfigLoader,
    phase: Phase,
}

impl View for Resolution {
    type V = ResolutionV;

    closed spec fn view(&self) -> ResolutionV {
        ResolutionV {
            request: self.request@,
            main_fields: texts_view(self.main_fields),
            extensions: texts_view(self.extensions),
            match_all: self.match_all,
            cache: self.loader.cache(),
            phase: phase_view(self.phase),
        }
    }
}

/// The entry files looked for in a directory, in order.
pub open spec fn index_names() -> Seq<Seq<char>> {
    seq!["index.ts"@, "index.js"@, "index.tsx"@, "index.jsx"@]
}

/// `base` with each of `exts` appended.
pub open spec fn suffixed(base: Seq<char>, exts: Seq<Seq<char>>) -> Seq<Seq<char>> {
    exts.map_values(|e: Seq<char>| base + e)
}

/// The tsconfig files of `dir` and its ancestors, nearest first.
pub open spec fn tsconfig_probes(dir: Seq<char>) -> Seq<Seq<char>> {
    (choose|a: Seq<Seq<char>>| is_ancestor_chain(dir, a)).map_values(|d: Seq<char>| tsconfig_file_in(d))
}

/// The entry files of directory `abs`.
pub open spec fn index_probes(abs: Seq<char>) -> Seq<Seq<char>> {
    index_names().map_values(|n: Seq<char>| joined_path(abs, n))
}

/// The siblings of `resolved` with its stem and each extension.
pub open spec fn stem_probes(resolved: Seq<char>, exts: Seq<Seq<char>>) -> Seq<Seq<char>> {
    let stem = match path_file_stem(resolved) {
        Some(s) => s,
        None => Seq::empty(),
    };
    let parent = match path_parent(resolved) {
        Some(p) => p,
        None => resolved,
    };
    exts.map_values(|e: Seq<char>| joined_path(parent, stem + e))
}

/// What a resolution in phase `r.phase` needs next, or how it ended.
pub open spec fn action_spec(r: ResolutionV) -> StepV {
    match r.phase {
        PhaseV::FindTsconfig(d) => StepV::ProbeFiles(tsconfig_probes(d)),
        PhaseV::ReadTsconfig(d) => StepV::ReadTsconfig(tsconfig_file_in(d)),
        PhaseV::MatchPath(c, _) => StepV::ProbeFiles(c),
        PhaseV::ProbeExtensions(f) => StepV::ProbeFiles(suffixed(f, r.extensions)),
        PhaseV::Canonicalize(f) => StepV::Canonicalize(f),
        PhaseV::CheckDir(a) => StepV::CheckDir(a),
        PhaseV::ProbeIndex(a) => StepV::ProbeFiles(index_probes(a)),
        PhaseV::CheckResolved(p) => StepV::ProbeFiles(seq![p]),
        PhaseV::ProbeStem(p) => StepV::ProbeFiles(stem_probes(p, r.extensions)),
        PhaseV::Done(p) => StepV::Done(p),
        PhaseV::Failed(f) => StepV::Failed(f),
    }
}

/// The phase after a tsconfig file of `dir` parsed to `json`.
pub open spec fn after_tsconfig(r: ResolutionV, dir: Seq<char>, json: JsonV) -> PhaseV {
    match load_spec(dir, json) {
        Err(e) => PhaseV::Failed(ResolveFailure::Tsconfig(e)),
        Ok(None) => PhaseV::Done(None),
        Ok(Some(t)) => if !substitutions_valid(t.paths) {
            PhaseV::Failed(ResolveFailure::InvalidSubstitution)
        } else {
            let m = PathMatcherV {
                base_url: t.absolute_base_url,
                paths: t.paths,
                main_fields: r.main_fields,
                match_all: r.match_all,
            };
            PhaseV::MatchPath(match_candidates(m, r.request, r.extensions), !keys_valid(m))
        },
    }
}

/// The state after answer `a` to a resolution in state `r`: the phase, and
/// the tsconfig visit cache. An answer of another kind than the one asked
/// for changes nothing.
pub open spec fn advance_spec(r: ResolutionV, a: AnswerV) -> (PhaseV, Seq<(Seq<char>, bool)>) {
    match (r.phase, a) {
        (PhaseV::FindTsconfig(d), AnswerV::Files(ex)) => {
            let chain = choose|c: Seq<Seq<char>>| is_ancestor_chain(d, c);
            let (found, cache) = closest_spec(r.cache, chain, 0, ex);
            (
                match found {
                    Some(dir) => PhaseV::ReadTsconfig(dir),
                    None => PhaseV::Done(None),
                },
                cache,
            )
        },
        (PhaseV::ReadTsconfig(d), AnswerV::Tsconfig(j)) => (
            match j {
                None => PhaseV::Done(None),
                Some(json) => after_tsconfig(r, d, json),
            },
            r.cache,
        ),
        (PhaseV::MatchPath(c, key_error), AnswerV::Files(ex)) => (
            match first_existing(c, ex) {
                Some(found) => PhaseV::ProbeExtensions(found),
                None => if key_error {
                    PhaseV::Failed(ResolveFailure::InvalidKey)
                } else {
                    PhaseV::Done(None)
                },
            },
            r.cache,
        ),
        (PhaseV::ProbeExtensions(f), AnswerV::Files(ex)) => (
            match first_existing(suffixed(f, r.extensions), ex) {
                Some(p) => PhaseV::Done(Some(p)),
                None => PhaseV::Canonicalize(f),
            },
            r.cache,
        ),
        (PhaseV::Canonicalize(f), AnswerV::Canonical(c)) => (
            PhaseV::CheckDir(
                match c {
                    Some(x) => x,
                    None => f,
                },
            ),
            r.cache,
        ),
        (PhaseV::CheckDir(abs), AnswerV::IsDir(d)) => (
            if d {
                PhaseV::ProbeIndex(abs)
            } else {
                PhaseV::CheckResolved(abs)
            },
            r.cache,
        ),
        (PhaseV::ProbeIndex(abs), AnswerV::Files(ex)) => (
            match first_existing(index_probes(abs), ex) {
                Some(p) => PhaseV::CheckResolved(p),
                None => PhaseV::CheckResolved(abs),
            },
            r.cache,
        ),
        (PhaseV::CheckResolved(p), AnswerV::Files(ex)) => (
            if ex.contains(p) {
                PhaseV::Done(Some(p))
            } else {
                PhaseV::ProbeStem(p)
            },
            r.cache,
        ),
        (PhaseV::ProbeStem(p), AnswerV::Files(ex)) => (
            match first_existing(stem_probes(p, r.extensions), ex) {
                Some(q) => PhaseV::Done(Some(q)),
                None => PhaseV::Done(Some(p)),
            },
            r.cache,
        ),
        _ => (r.phase, r.cache),
    }
}

/// How many answered steps a phase is at most away from its end.
pub open spec fn phase_rank(p: PhaseV) -> nat {
    match p {
        PhaseV::FindTsconfig(_) => 9,
        PhaseV::ReadTsconfig(_) => 8,
        PhaseV::MatchPath(_, _) => 7,
        PhaseV::ProbeExtensions(_) => 6,
        PhaseV::Canonicalize(_) => 5,
        PhaseV::CheckDir(_) => 4,
        PhaseV::ProbeIndex(_) => 3,
        PhaseV::CheckResolved(_) => 2,
        PhaseV::ProbeStem(_) => 1,
        PhaseV::Done(_) => 0,
        PhaseV::Failed(_) => 0,
    }
}

/// The answer `a` is of the kind that phase `p` asks for.
pub open spec fn answers(p: PhaseV, a: AnswerV) -> bool {
    match p {
        PhaseV::ReadTsconfig(_) => a is Tsconfig,
        PhaseV::Canonicalize(_) => a is Canonical,
        PhaseV::CheckDir(_) => a is IsDir,
        PhaseV::Done(_) => false,
        PhaseV::Failed(_) => false,
        _ => a is Files,
    }
}

/// A resolution ends: every answer of the kind asked for brings it
/// strictly closer to its end, so it takes at most nine answers.
pub proof fn lemma_resolution_progress(r: ResolutionV, a: AnswerV)
    requires
        answers(r.phase, a),
    ensures
        phase_rank(advance_spec(r, a).0) < phase_rank(r.phase),
{
}

/// No answer makes the tsconfig visit cache hold two entries that are the
/// same path.
pub proof fn lemma_resolution_keeps_cache_distinct(r: ResolutionV, a: AnswerV)
    requires
        cache_distinct(r.cache),
    ensures
        cache_distinct(advance_spec(r, a).1),
{
    if let (PhaseV::FindTsconfig(d), AnswerV::Files(ex)) = (r.phase, a) {
        let chain = choose|c: Seq<Seq<char>>| is_ancestor_chain(d, c);
        lemma_walk_keeps_cache_distinct(r.cache, chain, 0, ex);
    }
}

/// A finished resolution stays finished, whatever it is told.
pub proof fn lemma_resolution_final(r: ResolutionV, a: AnswerV)
    requires
        r.phase is Done || r.phase is Failed,
    ensures
        advance_spec(r, a) == (r.phase, r.cache),
{
}

/// A fresh copy of the strings of `v`.
pub fn clone_texts(v: &Vec<String>) -> (r: Vec<String>)
    ensures
        texts_view(r) == texts_view(*v),
{
    let mut out: Vec<String> = Vec::new();
    let mut i: usize = 0;
    while i < v.len()
        invariant
            i <= v@.len(),
            out@.len() == i,
            forall|k: int| 0 <= k < i ==> (#[trigger] out@[k])@ == v@[k]@,
        decreases v@.len() - i,
    {
        out.push(to_owned_text(v[i].as_str()));
        i = i + 1;
    }
    assert(texts_view(out) =~= texts_view(*v));
    out
}

/// `base` with each of `exts` appended.
fn with_suffixes(base: &str, exts: &Vec<String>) -> (r: Vec<String>)
    ensures
        texts_view(r) == suffixed(base@, texts_view(*exts)),
{
    let mut out: Vec<String> = Vec::new();
    let mut i: usize = 0;
    while i < exts.len()
        invariant
            i <= exts@.len(),
            out@.len() == i,
            forall|k: int| 0 <= k < i ==> (#[trigger] out@[k])@ == base@ + exts@[k]@,
        decreases exts@.len() - i,
    {
        out.push(concat_text(base, exts[i].as_str()));
        i = i + 1;
    }
    assert(texts_view(out) =~= suffixed(base@, texts_view(*exts)));
    out
}

/// The plugin: its project root, options, tsconfig visit cache.
pub struct EnhancedTsconfigPaths {
    root: String,
    options: Options,
    tsconfig_loader: TsconfigLoader,
}

/// The request is relative: it starts with `.`.
pub open spec fn is_relative_request(request: Seq<char>) -> bool {
    request.len() > 0 && request[0] == '.'
}

/// Only a request whose first character is `.` counts as relative: a dot
/// elsewhere in it (`styles.css`, `a/b.js`) does not.
pub proof fn lemma_relative_exactly_leading_dot(request: Seq<char>)
    ensures
        is_relative_request(request) <==> (request.len() > 0 && request[0] == '.'),
        forall|c: char, rest: Seq<char>| c != '.' ==> !is_relative_request(#[trigger] seq![c] + rest),
{
    assert forall|c: char, rest: Seq<char>| c != '.' implies !is_relative_request(#[trigger] seq![c] + rest) by {
        assert((seq![c] + rest)[0] == c);
    }
}

impl EnhancedTsconfigPaths {
    /// The plugin for project root `root` with `options`.
    pub fn new(root: &str, options: Options) -> (r: Self)
        ensures
            r.root()@ == root@,
            r.options() == options,
            r.tsconfig_cache() == Seq::<(Seq<char>, bool)>::empty(),
    {
        EnhancedTsconfigPaths { root: to_owned_text(root), options, tsconfig_loader: TsconfigLoader::new() }
    }

    pub closed spec fn root(&self) -> String {
        self.root
    }

    pub closed spec fn options(&self) -> Options {
        self.options
    }

    pub closed spec fn tsconfig_cache(&self) -> Seq<(Seq<char>, bool)> {
        self.tsconfig_loader.cache()
    }

    /// The plugin's name.
    pub fn name(&self) -> (r: &'static str)
        ensures
            r@ == "EnhancedTsconfigPaths"@,
    {
        "EnhancedTsconfigPaths"
    }

    /// The project root.
    pub fn root_dir(&self) -> (r: &String)
        ensures
            r@ == self.root()@,
    {
        &self.root
    }

    /// Starts resolving `request_path`, imported from the module at
    /// `importer` (its resolved path). Relative requests and imports
    /// without importer end at once with nothing; so do imports from under
    /// `node_modules` when the options say so. Otherwise the tsconfig file
    /// governing the importer's directory is looked for.
    pub fn resolve(&self, request_path: &str, importer: Option<&str>) -> (r: Resolution)
        ensures
            r@.request == request_path@,
            r@.main_fields == texts_view(self.options().tsconfig_paths.main_fields),
            r@.extensions == texts_view(self.options().tsconfig_paths.extensions),
            r@.match_all == self.options().tsconfig_paths.match_all,
            r@.cache == self.tsconfig_cache(),
            r@.phase == (if is_relative_request(request_path@) {
                PhaseV::Done(None)
            } else {
                match importer {
                    None => PhaseV::Done(None),
                    Some(imp) => match path_parent(imp@) {
                        None => PhaseV::Failed(ResolveFailure::ImporterWithoutDirectory),
                        Some(dir) => if self.options().ignore_node_modules && occurs_in(
                            dir,
                            "node_modules"@,
                        ) {
                            PhaseV::Done(None)
                        } else {
                            PhaseV::FindTsconfig(dir)
                        },
                    },
                }
            }),
            request_path@.len() > 0 && request_path@[0] == '.' ==> r@.phase == PhaseV::Done(None),
            !(request_path@.len() > 0 && request_path@[0] == '.') ==> match importer {
                Some(imp) => match path_parent(imp@) {
                    Some(dir) => !(self.options().ignore_node_modules && occurs_in(dir, "node_modules"@))
                        ==> r@.phase == PhaseV::FindTsconfig(dir),
                    None => r@.phase == PhaseV::Failed(ResolveFailure::ImporterWithoutDirectory),
                },
                None => r@.phase == PhaseV::Done(None),
            },
    {
        let phase = if first_char_is(request_path, '.') {
            Phase::Done(None)
        } else {
            match importer {
                None => Phase::Done(None),
                Some(imp) => match parent_path(imp) {
                    None => Phase::Failed(ResolveFailure::ImporterWithoutDirectory),
                    Some(dir) => {
                        if self.options.ignore_node_modules && contains_text(dir.as_str(), "node_modules") {
                            Phase::Done(None)
                        } else {
                            Phase::FindTsconfig { importer_dir: dir }
                        }
                    },
                },
            }
        };
        Resolution {
            request: to_owned_text(request_path),
            main_fields: clone_texts(&self.options.tsconfig_paths.main_fields),
            extensions: clone_texts(&self.options.tsconfig_paths.extensions),
            match_all: self.options.tsconfig_paths.match_all,
            loader: self.tsconfig_loader.clone_loader(),
            phase,
        }
    }
}

impl Resolution {
    /// What the resolution needs to know next, or how it ended.
    pub fn next_step(&self) -> (s: ResolveStep)
        ensures
            step_is(s, action_spec(self@)),
    {
        match &self.phase {
            Phase::FindTsconfig { importer_dir } => {
                let anc = ancestor_paths(importer_dir.as_str());
                let ghost a = texts_view(anc);
                proof {
                    assert(is_ancestor_chain(importer_dir@, a));
                    let c = choose|c: Seq<Seq<char>>| is_ancestor_chain(importer_dir@, c);
                    lemma_ancestor_chain_unique(importer_dir@, a, c);
                }
                let mut out: Vec<String> = Vec::new();
                let mut i: usize = 0;
                while i < anc.len()
                    invariant
                        i <= anc@.len(),
                        a == texts_view(anc),
                        out@.len() == i,
                        forall|k: int| 0 <= k < i ==> (#[trigger] out@[k])@ == tsconfig_file_in(a[k]),
                    decreases anc@.len() - i,
                {
                    out.push(join_path(anc[i].as_str(), "tsconfig.json"));
                    i = i + 1;
                }
                assert(texts_view(out) =~= a.map_values(|d: Seq<char>| tsconfig_file_in(d)));
                ResolveStep::ProbeFiles(out)
            },
            Phase::ReadTsconfig { dir } => ResolveStep::ReadTsconfig(join_path(dir.as_str(), "tsconfig.json")),
            Phase::MatchPath { candidates, .. } => ResolveStep::ProbeFiles(clone_texts(candidates)),
            Phase::ProbeExtensions { found } => ResolveStep::ProbeFiles(
                with_suffixes(found.as_str(), &self.extensions),
            ),
            Phase::Canonicalize { found } => ResolveStep::Canonicalize(to_owned_text(found.as_str())),
            Phase::CheckDir { abs } => ResolveStep::CheckDir(to_owned_text(abs.as_str())),
            Phase::ProbeIndex { abs } => {
                let out = vec![
                    join_path(abs.as_str(), "index.ts"),
                    join_path(abs.as_str(), "index.js"),
                    join_path(abs.as_str(), "index.tsx"),
                    join_path(abs.as_str(), "index.jsx"),
                ];
                assert(texts_view(out) =~= index_probes(abs@));
                ResolveStep::ProbeFiles(out)
            },
            Phase::CheckResolved { resolved } => {
                let out = vec![to_owned_text(resolved.as_str())];
                assert(texts_view(out) =~= seq![resolved@]);
                ResolveStep::ProbeFiles(out)
            },
            Phase::ProbeStem { resolved } => ResolveStep::ProbeFiles(
                stem_candidates(resolved.as_str(), &self.extensions),
            ),
            Phase::Done(None) => ResolveStep::Done(None),
            Phase::Done(Some(p)) => ResolveStep::Done(Some(result_for(p.as_str()))),
            Phase::Failed(f) => ResolveStep::Failed(*f),
        }
    }

    /// Takes the answer to the last question.
    pub fn advance(&mut self, answer: Answer)
        ensures
            final(self)@ == (ResolutionV {
                phase: advance_spec(old(self)@, answer_view(answer)).0,
                cache: advance_spec(old(self)@, answer_view(answer)).1,
                ..old(self)@
            }),
    {
        let ghost r0 = self@;
        let mut phase = Phase::Done(None);
        std::mem::swap(&mut phase, &mut self.phase);
        let next = match (phase, answer) {
            (Phase::FindTsconfig { importer_dir }, Answer::Files(existing)) => {
                let found = self.loader.get_closest_tsconfig_dir(importer_dir.as_str(), &existing);
                proof {
                    let c = choose|c: Seq<Seq<char>>| is_ancestor_chain(importer_dir@, c);
                    assert(is_ancestor_chain(importer_dir@, c));
                }
                match found {
                    Some(dir) => Phase::ReadTsconfig { dir },
                    None => Phase::Done(None),
                }
            },
            (Phase::ReadTsconfig { dir }, Answer::Tsconfig(json)) => match json {
                None => Phase::Done(None),
                Some(j) => self.after_tsconfig(dir.as_str(), &j),
            },
            (Phase::MatchPath { candidates, key_error }, Answer::Files(existing)) => {
                match first_existing_of(&candidates, &existing) {
                    Some(found) => Phase::ProbeExtensions { found },
                    None => if key_error {
                        Phase::Failed(ResolveFailure::InvalidKey)
                    } else {
                        Phase::Done(None)
                    },
                }
            },
            (Phase::ProbeExtensions { found }, Answer::Files(existing)) => {
                let cands = with_suffixes(found.as_str(), &self.extensions);
                match first_existing_of(&cands, &existing) {
                    Some(p) => Phase::Done(Some(p)),
                    None => Phase::Canonicalize { found },
                }
            },
            (Phase::Canonicalize { found }, Answer::Canonical(c)) => match c {
                Some(x) => Phase::CheckDir { abs: x },
                None => Phase::CheckDir { abs: found },
            },
            (Phase::CheckDir { abs }, Answer::IsDir(d)) => {
                if d {
                    Phase::ProbeIndex { abs }
                } else {
                    Phase::CheckResolved { resolved: abs }
                }
            },
            (Phase::ProbeIndex { abs }, Answer::Files(existing)) => {
                let cands = vec![
                    join_path(abs.as_str(), "index.ts"),
                    join_path(abs.as_str(), "index.js"),
                    join_path(abs.as_str(), "index.tsx"),
                    join_path(abs.as_str(), "index.jsx"),
                ];
                assert(texts_view(cands) =~= index_probes(abs@));
                match first_existing_of(&cands, &existing) {
                    Some(p) => Phase::CheckResolved { resolved: p },
                    None => Phase::CheckResolved { resolved: abs },
                }
            },
            (Phase::CheckResolved { resolved }, Answer::Files(existing)) => {
                if contains_path(&existing, resolved.as_str()) {
                    Phase::Done(Some(resolved))
                } else {
                    Phase::ProbeStem { resolved }
                }
            },
            (Phase::ProbeStem { resolved }, Answer::Files(existing)) => {
                let cands = stem_candidates(resolved.as_str(), &self.extensions);
                match first_existing_of(&cands, &existing) {
                    Some(p) => Phase::Done(Some(p)),
                    None => Phase::Done(Some(resolved)),
                }
            },
            (p, _) => p,
        };
        self.phase = next;
    }

    /// The phase after the tsconfig file of `dir` parsed to `json`.
    fn after_tsconfig(&self, dir: &str, json: &JsonValue) -> (r: Phase)
        ensures
            phase_view(r) == after_tsconfig(self@, dir@, json@),
    {
        if let Some(e) = TsconfigLoader::tsconfig_error_of(json) {
            return Phase::Failed(ResolveFailure::Tsconfig(e));
        }
        match TsconfigLoader::load_from(dir, json) {
            None => Phase::Done(None),
            Some(t) => {
                let matcher = match PathMatcher::try_new(
                    t.absolute_base_url.as_str(),
                    &t.paths,
                    &self.main_fields,
                    self.match_all,
                ) {
                    Some(m) => m,
                    None => return Phase::Failed(ResolveFailure::InvalidSubstitution),
                };
                let (candidates, stopped) = matcher.candidates(self.request.as_str(), &self.extensions);
                Phase::MatchPath { candidates, key_error: stopped.is_some() }
            },
        }
    }
}

/// The siblings of `resolved` with its stem and each extension.
fn stem_candidates(resolved: &str, exts: &Vec<String>) -> (r: Vec<String>)
    ensures
        texts_view(r) == stem_probes(resolved@, texts_view(*exts)),
{
    let stem = match file_stem_of(resolved) {
        Some(s) => s,
        None => String::new(),
    };
    let parent = match parent_path(resolved) {
        Some(p) => p,
        None => to_owned_text(resolved),
    };
    let mut out: Vec<String> = Vec::new();
    let mut i: usize = 0;
    while i < exts.len()
        invariant
            i <= exts@.len(),
            out@.len() == i,
            forall|k: int|
                0 <= k < i ==> (#[trigger] out@[k])@ == joined_path(parent@, stem@ + exts@[k]@),
        decreases exts@.len() - i,
    {
        let name = concat_text(stem.as_str(), exts[i].as_str());
        out.push(join_path(parent.as_str(), name.as_str()));
        i = i + 1;
    }
    assert(texts_view(out) =~= stem_probes(resolved@, texts_view(*exts)));
    out
}

} // verus!
