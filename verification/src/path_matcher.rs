//! Matching a request against the `paths` table of a tsconfig file.
//!
//! An entry `key: [substitutions..]` applies to a request when the glob
//! `key` (with `*` appended when `match_all` is set) matches it. Each
//! substitution then gives a candidate: the substitution with every `*`
//! replaced by the request, joined to the base URL; then that candidate
//! with each extension appended. The first candidate that exists is the
//! match. Entries are tried in order, and each key is compiled when its
//! entry is reached: a key that is no glob pattern stops the matching
//! there, unless a candidate was found before it.
use vstd::prelude::*;
use crate::glob_pattern::{glob_matches, glob_pattern_valid, GlobPattern};
use crate::path_text::{join_path, joined_path};
use crate::text::{concat_text, replace_char, replace_star, to_owned_text};
use crate::tsconfig_loader::{contains_path, paths_view, texts_view};

verus! {

/// A compiled `paths` table, resolved against a base URL.
pub struct PathMatcher {
    base_url: String,
    paths: Vec<(String, Vec<GlobPattern>)>,
    main_fields: Vec<String>,
    match_all: bool,
}

pub struct PathMatcherV {
    pub base_url: Seq<char>,
    pub paths: Seq<(Seq<char>, Seq<Seq<char>>)>,
    pub main_fields: Seq<Seq<char>>,
    pub match_all: bool,
}

pub open spec fn patterns_view(v: Vec<GlobPattern>) -> Seq<Seq<char>> {
    v@.map_values(|p: GlobPattern| p@)
}

impl View for PathMatcher {
    type V = PathMatcherV;

    closed spec fn view(&self) -> PathMatcherV {
        PathMatcherV {
            base_url: self.base_url@,
            paths: self.paths@.map_values(|e: (String, Vec<GlobPattern>)| (e.0@, patterns_view(e.1))),
            main_fields: texts_view(self.main_fields),
            match_all: self.match_all,
        }
    }
}

/// Every substitution of the table is a glob pattern that the `glob` crate
/// accepts.
pub open spec fn substitutions_valid(paths: Seq<(Seq<char>, Seq<Seq<char>>)>) -> bool {
    forall|i: int, j: int|
        0 <= i < paths.len() && 0 <= j < paths[i].1.len() ==> glob_pattern_valid(
            #[trigger] paths[i].1[j],
        )
}

/// The glob that the key `key` stands for.
pub open spec fn key_pattern(key: Seq<char>, match_all: bool) -> Seq<char> {
    if match_all {
        key + "*"@
    } else {
        key
    }
}

/// Every key of the table gives a glob pattern that the `glob` crate
/// accepts.
pub open spec fn keys_valid(m: PathMatcherV) -> bool {
    forall|i: int| 0 <= i < m.paths.len() ==> glob_pattern_valid(#[trigger] key_pattern(m.paths[i].0, m.match_all))
}

/// The candidates of one substitution: the substituted path, then the
/// substituted path with each extension.
pub open spec fn substitution_candidates(
    base: Seq<char>,
    sub: Seq<char>,
    request: Seq<char>,
    exts: Seq<Seq<char>>,
) -> Seq<Seq<char>> {
    let p = joined_path(base, replace_char(sub, '*', request));
    seq![p] + exts.map_values(|e: Seq<char>| p + e)
}

/// The candidates of a list of substitutions, in order.
pub open spec fn subs_candidates(
    base: Seq<char>,
    subs: Seq<Seq<char>>,
    request: Seq<char>,
    exts: Seq<Seq<char>>,
) -> Seq<Seq<char>>
    decreases subs.len(),
{
    if subs.len() == 0 {
        Seq::empty()
    } else {
        subs_candidates(base, subs.drop_last(), request, exts) + substitution_candidates(
            base,
            subs.last(),
            request,
            exts,
        )
    }
}

/// The candidates of the table entries `entries` whose key matches
/// `request`, in order.
pub open spec fn entries_candidates(
    m: PathMatcherV,
    entries: Seq<(Seq<char>, Seq<Seq<char>>)>,
    request: Seq<char>,
    exts: Seq<Seq<char>>,
) -> Seq<Seq<char>>
    decreases entries.len(),
{
    if entries.len() == 0 {
        Seq::empty()
    } else {
        entries_candidates(m, entries.drop_last(), request, exts) + if glob_matches(
            key_pattern(entries.last().0, m.match_all),
            request,
        ) {
            subs_candidates(m.base_url, entries.last().1, request, exts)
        } else {
            Seq::empty()
        }
    }
}

/// The index of the first entry from `i` on whose key gives no glob
/// pattern; the table's length where there is none.
pub open spec fn first_bad_key_from(m: PathMatcherV, i: nat) -> nat
    decreases m.paths.len() - i,
{
    if i >= m.paths.len() {
        m.paths.len()
    } else if !glob_pattern_valid(key_pattern(m.paths[i as int].0, m.match_all)) {
        i
    } else {
        first_bad_key_from(m, i + 1)
    }
}

/// The entries that matching reaches: those before the first key that
/// gives no glob pattern.
pub open spec fn reached_entries(m: PathMatcherV) -> Seq<(Seq<char>, Seq<Seq<char>>)> {
    m.paths.take(first_bad_key_from(m, 0) as int)
}

/// All candidates for `request`, in the order they are tried: those of
/// the entries before the first key that gives no glob pattern.
pub open spec fn match_candidates(m: PathMatcherV, request: Seq<char>, exts: Seq<Seq<char>>) -> Seq<
    Seq<char>,
> {
    entries_candidates(m, reached_entries(m), request, exts)
}

/// The candidates that one table entry gives for `request`: where its key
/// matches, those of each of its substitutions in turn; none otherwise.
pub open spec fn entry_candidates(
    m: PathMatcherV,
    e: (Seq<char>, Seq<Seq<char>>),
    request: Seq<char>,
    exts: Seq<Seq<char>>,
) -> Seq<Seq<char>> {
    if glob_matches(key_pattern(e.0, m.match_all), request) {
        e.1.map_values(|sub: Seq<char>| substitution_candidates(m.base_url, sub, request, exts)).flatten()
    } else {
        Seq::empty()
    }
}

proof fn lemma_subs_flatten(base: Seq<char>, subs: Seq<Seq<char>>, request: Seq<char>, exts: Seq<Seq<char>>)
    ensures
        subs_candidates(base, subs, request, exts) == subs.map_values(
            |sub: Seq<char>| substitution_candidates(base, sub, request, exts),
        ).flatten(),
    decreases subs.len(),
{
    let g = |sub: Seq<char>| substitution_candidates(base, sub, request, exts);
    if subs.len() == 0 {
        assert(subs.map_values(g) =~= Seq::<Seq<Seq<char>>>::empty());
    } else {
        lemma_subs_flatten(base, subs.drop_last(), request, exts);
        assert(subs.map_values(g) =~= subs.drop_last().map_values(g).push(g(subs.last())));
        subs.drop_last().map_values(g).lemma_flatten_push(g(subs.last()));
    }
}

proof fn lemma_entries_flatten(
    m: PathMatcherV,
    es: Seq<(Seq<char>, Seq<Seq<char>>)>,
    request: Seq<char>,
    exts: Seq<Seq<char>>,
)
    ensures
        entries_candidates(m, es, request, exts) == es.map_values(
            |e: (Seq<char>, Seq<Seq<char>>)| entry_candidates(m, e, request, exts),
        ).flatten(),
    decreases es.len(),
{
    let f = |e: (Seq<char>, Seq<Seq<char>>)| entry_candidates(m, e, request, exts);
    if es.len() == 0 {
        assert(es.map_values(f) =~= Seq::<Seq<Seq<char>>>::empty());
    } else {
        lemma_entries_flatten(m, es.drop_last(), request, exts);
        lemma_subs_flatten(m.base_url, es.last().1, request, exts);
        assert(es.map_values(f) =~= es.drop_last().map_values(f).push(f(es.last())));
        es.drop_last().map_values(f).lemma_flatten_push(f(es.last()));
    }
}

/// The candidates for `request` are, in order, those of every reached table
/// entry, each entry with a matching key giving the candidates of all its
/// substitutions; matching goes on past the first entry that matches.
pub proof fn lemma_candidates_entry_by_entry(m: PathMatcherV, request: Seq<char>, exts: Seq<Seq<char>>)
    ensures
        match_candidates(m, request, exts) == reached_entries(m).map_values(
            |e: (Seq<char>, Seq<Seq<char>>)| entry_candidates(m, e, request, exts),
        ).flatten(),
{
    lemma_entries_flatten(m, reached_entries(m), request, exts);
}

/// Where every key from `j` to `i` gives a glob pattern and key `i` (or the
/// table's end) does not, `i` is the first bad key from `j`.
proof fn lemma_first_bad_key(m: PathMatcherV, j: nat, i: nat)
    requires
        j <= i <= m.paths.len(),
        forall|k: int| j <= k < i ==> glob_pattern_valid(#[trigger] key_pattern(m.paths[k].0, m.match_all)),
        i < m.paths.len() ==> !glob_pattern_valid(key_pattern(m.paths[i as int].0, m.match_all)),
    ensures
        first_bad_key_from(m, j) == i,
    decreases i - j,
{
    if j < i {
        lemma_first_bad_key(m, j + 1, i);
    }
}

/// Every key gives a glob pattern exactly when matching reaches every
/// entry; where the keys are valid the candidates are those of the whole
/// table.
pub proof fn lemma_reached_entries(m: PathMatcherV, request: Seq<char>, exts: Seq<Seq<char>>)
    ensures
        keys_valid(m) <==> reached_entries(m) == m.paths,
        keys_valid(m) ==> match_candidates(m, request, exts) == entries_candidates(m, m.paths, request, exts),
{
    let b = first_bad_key_from(m, 0);
    lemma_first_bad_key_bounds(m, 0);
    if keys_valid(m) {
        assert forall|k: int| 0 <= k < m.paths.len() implies glob_pattern_valid(
            #[trigger] key_pattern(m.paths[k].0, m.match_all),
        ) by {}
        lemma_first_bad_key(m, 0, m.paths.len());
        assert(reached_entries(m) =~= m.paths);
    } else {
        assert(b < m.paths.len());
        assert(reached_entries(m).len() < m.paths.len());
    }
}

proof fn lemma_first_bad_key_bounds(m: PathMatcherV, i: nat)
    ensures
        first_bad_key_from(m, i) <= m.paths.len(),
        first_bad_key_from(m, i) < m.paths.len() ==> !glob_pattern_valid(
            key_pattern(m.paths[first_bad_key_from(m, i) as int].0, m.match_all),
        ),
        i <= m.paths.len() && first_bad_key_from(m, i) == m.paths.len() ==> forall|k: int|
            i <= k < m.paths.len() ==> glob_pattern_valid(#[trigger] key_pattern(m.paths[k].0, m.match_all)),
    decreases m.paths.len() - i,
{
    if i < m.paths.len() && glob_pattern_valid(key_pattern(m.paths[i as int].0, m.match_all)) {
        lemma_first_bad_key_bounds(m, i + 1);
    }
}

/// The first of `cands` that is one of `existing`.
pub open spec fn first_existing(cands: Seq<Seq<char>>, existing: Seq<Seq<char>>) -> Option<Seq<char>>
    decreases cands.len(),
{
    if cands.len() == 0 {
        None
    } else if existing.contains(cands[0]) {
        Some(cands[0])
    } else {
        first_existing(cands.drop_first(), existing)
    }
}

/// The first existing candidate is a candidate, it exists, and no
/// candidate before it exists.
pub proof fn lemma_first_existing(cands: Seq<Seq<char>>, existing: Seq<Seq<char>>)
    ensures
        match first_existing(cands, existing) {
            Some(p) => exists|i: int|
                0 <= i < cands.len() && cands[i] == p && existing.contains(p) && forall|j: int|
                    0 <= j < i ==> !existing.contains(#[trigger] cands[j]),
            None => forall|j: int| 0 <= j < cands.len() ==> !existing.contains(#[trigger] cands[j]),
        },
    decreases cands.len(),
{
    if cands.len() > 0 {
        let rest = cands.drop_first();
        lemma_first_existing(rest, existing);
        if !existing.contains(cands[0]) {
            match first_existing(rest, existing) {
                Some(p) => {
                    let i = choose|i: int|
                        0 <= i < rest.len() && rest[i] == p && existing.contains(p) && forall|j: int|
                            0 <= j < i ==> !existing.contains(#[trigger] rest[j]);
                    assert(cands[i + 1] == p);
                    assert forall|j: int| 0 <= j < i + 1 implies !existing.contains(#[trigger] cands[j]) by {
                        if j > 0 {
                            assert(cands[j] == rest[j - 1]);
                        }
                    }
                },
                None => {
                    assert forall|j: int| 0 <= j < cands.len() implies !existing.contains(#[trigger] cands[j]) by {
                        if j > 0 {
                            assert(cands[j] == rest[j - 1]);
                        }
                    }
                },
            }
        } else {
            assert(forall|j: int| 0 <= j < 0 ==> !existing.contains(#[trigger] cands[j]));
        }
    }
}

/// Why matching stops the build: a key that is no glob pattern.
#[derive(PartialEq, Eq, Structural, Debug, Clone, Copy)]
pub enum MatchError {
    InvalidKeyPattern,
}

impl PathMatcher {
    /// Compiles the `paths` table. Each substitution must be a glob pattern
    /// that the `glob` crate accepts.
    pub fn new(
        base_url: &str,
        paths: &Vec<(String, Vec<String>)>,
        main_fields: &Vec<String>,
        match_all: bool,
    ) -> (r: Self)
        requires
            substitutions_valid(paths_view(*paths)),
        ensures
            r@ == (PathMatcherV {
                base_url: base_url@,
                paths: paths_view(*paths),
                main_fields: texts_view(*main_fields),
                match_all,
            }),
    {
        let ghost pv = paths_view(*paths);
        let mut compiled: Vec<(String, Vec<GlobPattern>)> = Vec::new();
        let mut i: usize = 0;
        while i < paths.len()
            invariant
                i <= paths@.len(),
                pv == paths_view(*paths),
                substitutions_valid(pv),
                compiled@.len() == i,
                forall|k: int|
                    0 <= k < i ==> (#[trigger] compiled@[k]).0@ == pv[k].0 && patterns_view(
                        compiled@[k].1,
                    ) == pv[k].1,
            decreases paths@.len() - i,
        {
            let subs = &paths[i].1;
            assert(pv[i as int] == (paths@[i as int].0@, texts_view(*subs)));
            let mut pats: Vec<GlobPattern> = Vec::new();
            let mut j: usize = 0;
            while j < subs.len()
                invariant
                    j <= subs@.len(),
                    pv[i as int].1 == texts_view(*subs),
                    0 <= i < pv.len(),
                    substitutions_valid(pv),
                    pats@.len() == j,
                    forall|k: int| 0 <= k < j ==> (#[trigger] pats@[k])@ == subs@[k]@,
                decreases subs@.len() - j,
            {
                assert(pv[i as int].1[j as int] == subs@[j as int]@);
                assert(glob_pattern_valid(pv[i as int].1[j as int]));
                let p = GlobPattern::compile(subs[j].as_str()).unwrap();
                pats.push(p);
                j = j + 1;
            }
            assert(patterns_view(pats) =~= texts_view(*subs));
            compiled.push((to_owned_text(paths[i].0.as_str()), pats));
            i = i + 1;
        }
        let mut fields: Vec<String> = Vec::new();
        let mut k: usize = 0;
        while k < main_fields.len()
            invariant
                k <= main_fields@.len(),
                fields@.len() == k,
                forall|t: int| 0 <= t < k ==> (#[trigger] fields@[t])@ == main_fields@[t]@,
            decreases main_fields@.len() - k,
        {
            fields.push(to_owned_text(main_fields[k].as_str()));
            k = k + 1;
        }
        let r = PathMatcher { base_url: to_owned_text(base_url), paths: compiled, main_fields: fields, match_all };
        assert(r@.paths =~= pv);
        assert(r@.main_fields =~= texts_view(*main_fields));
        r
    }

    /// Compiles the `paths` table; `None` when one of its substitutions is
    /// not a glob pattern.
    pub fn try_new(
        base_url: &str,
        paths: &Vec<(String, Vec<String>)>,
        main_fields: &Vec<String>,
        match_all: bool,
    ) -> (r: Option<Self>)
        ensures
            r is Some <==> substitutions_valid(paths_view(*paths)),
            r matches Some(m) ==> m@ == (PathMatcherV {
                base_url: base_url@,
                paths: paths_view(*paths),
                main_fields: texts_view(*main_fields),
                match_all,
            }),
    {
        let ghost pv = paths_view(*paths);
        let mut i: usize = 0;
        while i < paths.len()
            invariant
                i <= paths@.len(),
                pv == paths_view(*paths),
                forall|a: int, b: int|
                    0 <= a < i && 0 <= b < pv[a].1.len() ==> glob_pattern_valid(#[trigger] pv[a].1[b]),
            decreases paths@.len() - i,
        {
            let subs = &paths[i].1;
            assert(pv[i as int] == (paths@[i as int].0@, texts_view(*subs)));
            let mut j: usize = 0;
            while j < subs.len()
                invariant
                    j <= subs@.len(),
                    0 <= i < pv.len(),
                    pv == paths_view(*paths),
                    pv[i as int].1 == texts_view(*subs),
                    forall|b: int| 0 <= b < j ==> glob_pattern_valid(#[trigger] pv[i as int].1[b]),
                decreases subs@.len() - j,
            {
                assert(pv[i as int].1[j as int] == subs@[j as int]@);
                if GlobPattern::compile(subs[j].as_str()).is_none() {
                    assert(!glob_pattern_valid(pv[i as int].1[j as int]));
                    assert(!substitutions_valid(pv));
                    return None;
                }
                j = j + 1;
            }
            i = i + 1;
        }
        Some(Self::new(base_url, paths, main_fields, match_all))
    }

    /// The base URL that substitutions are joined to.
    pub fn base_url(&self) -> (r: &String)
        ensures
            r@ == self@.base_url,
    {
        &self.base_url
    }

    /// The glob that the key of entry `i` stands for.
    fn entry_pattern(&self, i: usize) -> (r: String)
        requires
            i < self@.paths.len(),
        ensures
            r@ == key_pattern(self@.paths[i as int].0, self@.match_all),
    {
        let key = self.paths[i].0.as_str();
        if self.match_all {
            concat_text(key, "*")
        } else {
            to_owned_text(key)
        }
    }

    /// The candidates of one substitution, appended to `out`.
    fn push_substitution(&self, sub: &GlobPattern, request_path: &str, extensions: &Vec<String>, out: &mut Vec<String>)
        ensures
            final(out)@.map_values(|s: String| s@) == old(out)@.map_values(|s: String| s@)
                + substitution_candidates(self@.base_url, sub@, request_path@, texts_view(*extensions)),
    {
        let ghost start = old(out)@.map_values(|s: String| s@);
        let replaced = replace_star(sub.as_str(), request_path);
        let potential = join_path(self.base_url.as_str(), replaced.as_str());
        let ghost p = potential@;
        out.push(to_owned_text(potential.as_str()));
        assert(out@.map_values(|s: String| s@) =~= start + seq![p]);
        let mut k: usize = 0;
        while k < extensions.len()
            invariant
                k <= extensions@.len(),
                p == potential@,
                out@.map_values(|s: String| s@) =~= start + seq![p] + texts_view(*extensions).subrange(
                    0,
                    k as int,
                ).map_values(|e: Seq<char>| p + e),
            decreases extensions@.len() - k,
        {
            let ghost before = out@.map_values(|s: String| s@);
            let with_ext = concat_text(potential.as_str(), extensions[k].as_str());
            out.push(with_ext);
            assert(texts_view(*extensions).subrange(0, k + 1).map_values(|e: Seq<char>| p + e)
                =~= texts_view(*extensions).subrange(0, k as int).map_values(|e: Seq<char>| p + e).push(
                p + extensions@[k as int]@,
            ));
            assert(out@.map_values(|s: String| s@) =~= before.push(with_ext@));
            k = k + 1;
        }
        assert(texts_view(*extensions).subrange(0, k as int) =~= texts_view(*extensions));
    }

    /// The candidates for `request_path`, in the order they are tried, of
    /// the entries that matching reaches; with them the error where it
    /// stopped at a key that is not a glob pattern.
    pub fn candidates(&self, request_path: &str, extensions: &Vec<String>) -> (r: (Vec<String>, Option<MatchError>))
        ensures
            texts_view(r.0) == match_candidates(self@, request_path@, texts_view(*extensions)),
            r.1 is Some <==> !keys_valid(self@),
    {
        let ghost m = self@;
        let ghost exts = texts_view(*extensions);
        let ghost req = request_path@;
        let mut out: Vec<String> = Vec::new();
        let mut i: usize = 0;
        assert(m.paths.subrange(0, 0) =~= Seq::<(Seq<char>, Seq<Seq<char>>)>::empty());
        assert(texts_view(out) =~= Seq::<Seq<char>>::empty());
        while i < self.paths.len()
            invariant
                i <= self.paths@.len(),
                m == self@,
                exts == texts_view(*extensions),
                req == request_path@,
                m.paths.len() == self.paths@.len(),
                forall|k: int| 0 <= k < i ==> glob_pattern_valid(#[trigger] key_pattern(m.paths[k].0, m.match_all)),
                texts_view(out) == entries_candidates(m, m.paths.subrange(0, i as int), req, exts),
            decreases self.paths@.len() - i,
        {
            let pattern = self.entry_pattern(i);
            let compiled = match GlobPattern::compile(pattern.as_str()) {
                Some(p) => p,
                None => {
                    proof {
                        lemma_first_bad_key(m, 0, i as nat);
                        assert(m.paths.take(i as int) =~= m.paths.subrange(0, i as int));
                    }
                    return (out, Some(MatchError::InvalidKeyPattern));
                },
            };
            let ghost prefix = m.paths.subrange(0, i as int);
            let ghost next = m.paths.subrange(0, i + 1);
            assert(next.drop_last() =~= prefix);
            assert(next.last() == m.paths[i as int]);
            if compiled.matches(request_path) {
                let subs = &self.paths[i].1;
                assert(m.paths[i as int].1 == patterns_view(*subs));
                let mut j: usize = 0;
                let ghost base_out = texts_view(out);
                assert(patterns_view(*subs).subrange(0, 0) =~= Seq::<Seq<char>>::empty());
                assert(base_out =~= base_out + subs_candidates(m.base_url, Seq::<Seq<char>>::empty(), req, exts));
                while j < subs.len()
                    invariant
                        j <= subs@.len(),
                        m == self@,
                        exts == texts_view(*extensions),
                        req == request_path@,
                        texts_view(out) == base_out + subs_candidates(
                            m.base_url,
                            patterns_view(*subs).subrange(0, j as int),
                            req,
                            exts,
                        ),
                    decreases subs@.len() - j,
                {
                    let ghost before = texts_view(out);
                    self.push_substitution(&subs[j], request_path, extensions, &mut out);
                    let ghost sn = patterns_view(*subs).subrange(0, j + 1);
                    assert(sn.drop_last() =~= patterns_view(*subs).subrange(0, j as int));
                    assert(sn.last() == subs@[j as int]@);
                    assert(texts_view(out) =~= before + substitution_candidates(m.base_url, subs@[j as int]@, req, exts));
                    assert(texts_view(out) =~= base_out + subs_candidates(m.base_url, sn, req, exts));
                    j = j + 1;
                }
                assert(patterns_view(*subs).subrange(0, j as int) =~= patterns_view(*subs));
            } else {
                assert(texts_view(out) =~= texts_view(out) + Seq::<Seq<char>>::empty());
            }
            i = i + 1;
        }
        proof {
            lemma_first_bad_key(m, 0, i as nat);
            assert(m.paths.take(i as int) =~= m.paths);
            assert(m.paths.subrange(0, i as int) =~= m.paths);
        }
        (out, None)
    }

    /// The first candidate for `request_path` that is one of
    /// `existing_files`. Entries are tried in order; reaching a key that is
    /// not a glob pattern before a candidate was found is an error.
    pub fn match_path(&self, request_path: &str, extensions: &Vec<String>, existing_files: &Vec<String>) -> (r:
        Result<Option<String>, MatchError>)
        ensures
            match first_existing(
                match_candidates(self@, request_path@, texts_view(*extensions)),
                texts_view(*existing_files),
            ) {
                Some(p) => r matches Ok(Some(q)) && q@ == p,
                None => if keys_valid(self@) {
                    r matches Ok(None)
                } else {
                    r == Err::<Option<String>, MatchError>(MatchError::InvalidKeyPattern)
                },
            },
    {
        let (cands, stopped) = self.candidates(request_path, extensions);
        match first_existing_of(&cands, existing_files) {
            Some(p) => Ok(Some(p)),
            None => match stopped {
                Some(e) => Err(e),
                None => Ok(None),
            },
        }
    }
}

/// The first of `cands` that is one of `existing`.
pub fn first_existing_of(cands: &Vec<String>, existing: &Vec<String>) -> (r: Option<String>)
    ensures
        match r {
            Some(p) => first_existing(texts_view(*cands), texts_view(*existing)) == Some(p@),
            None => first_existing(texts_view(*cands), texts_view(*existing)) is None,
        },
{
    let ghost c = texts_view(*cands);
    let mut i: usize = 0;
    assert(c.subrange(0, c.len() as int) =~= c);
    while i < cands.len()
        invariant
            i <= cands@.len(),
            c == texts_view(*cands),
            first_existing(c, texts_view(*existing)) == first_existing(c.subrange(i as int, c.len() as int), texts_view(*existing)),
        decreases cands@.len() - i,
    {
        let ghost sub = c.subrange(i as int, c.len() as int);
        assert(sub[0] == cands@[i as int]@);
        if contains_path(existing, cands[i].as_str()) {
            return Some(to_owned_text(cands[i].as_str()));
        }
        assert(sub.drop_first() =~= c.subrange(i + 1, c.len() as int));
        i = i + 1;
    }
    None
}

} // verus!
