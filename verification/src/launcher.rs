//! Search and ordering logic of the application launcher.
//!
//! The launcher keeps, for every installed application, a search corpus
//! ([`AppSearchData`]) and its desktop-ID stem. With an empty query it lists
//! pinned applications first (in pinned order), then the rest in their
//! natural order; with a query it scores each application by fuzzy matching
//! over several weighted fields and lists the matches best first. Either way
//! at most `max_results` rows are shown.
//!
//! Fuzzy matching itself is the `fuzzy-matcher` crate's Skim V2 algorithm.

use vstd::prelude::*;
use fuzzy_matcher::skim::SkimMatcherV2;
use fuzzy_matcher::FuzzyMatcher;
use crate::config::LauncherConfig;
use crate::text::{chars_of, concat_from, ends_with, lemma_views_push, slice_of, string_of, views};

verus! {

// ── Fuzzy matcher ─────────────────────────────────────────────────────────────

/// Score that Skim V2 fuzzy matching with its default settings gives
/// `choice` against `pattern` (`FuzzyMatcher::fuzzy_match`), or `None` when
/// `pattern` does not match.
pub uninterp spec fn skim_match_score(choice: Seq<char>, pattern: Seq<char>) -> Option<i64>;

/// Score and matched character positions that Skim V2 fuzzy matching with
/// its default settings gives `choice` against `pattern`
/// (`FuzzyMatcher::fuzzy_indices`), or `None` when `pattern` does not match.
pub uninterp spec fn skim_match_indices(choice: Seq<char>, pattern: Seq<char>) -> Option<
    (i64, Seq<usize>),
>;

/// `SkimMatcherV2::default().fuzzy_match(choice, pattern)`.
///
/// Trusted: the result is the named value of the arguments; the crate's
/// source returns `Some(0)` for an empty pattern and builds every score from
/// an `i32`. Nothing else about the algorithm is stated.
#[verifier::external_body]
fn skim_fuzzy_match(choice: &str, pattern: &str) -> (r: Option<i64>)
    ensures
        r == skim_match_score(choice@, pattern@),
        pattern@.len() == 0 ==> r == Some(0i64),
        r matches Some(s) ==> i32::MIN <= s <= i32::MAX,
{
    SkimMatcherV2::default().fuzzy_match(choice, pattern)
}

/// A matcher result with its positions taken by view.
pub open spec fn indices_view(r: Option<(i64, Vec<usize>)>) -> Option<(i64, Seq<usize>)> {
    match r {
        Some((s, v)) => Some((s, v@)),
        None => None,
    }
}

/// `SkimMatcherV2::default().fuzzy_indices(choice, pattern)`.
///
/// Trusted: the result is the named value of the arguments; the crate's
/// source returns `Some((0, []))` for an empty pattern and builds every
/// score from an `i32`. Nothing else about the algorithm is stated.
#[verifier::external_body]
fn skim_fuzzy_indices(choice: &str, pattern: &str) -> (r: Option<(i64, Vec<usize>)>)
    ensures
        indices_view(r) == skim_match_indices(choice@, pattern@),
        pattern@.len() == 0 ==> indices_view(r) == Some((0i64, Seq::<usize>::empty())),
        r matches Some((s, v)) ==> i32::MIN <= s <= i32::MAX,
{
    SkimMatcherV2::default().fuzzy_indices(choice, pattern)
}

// ── Scoring ───────────────────────────────────────────────────────────────────

/// Precomputed search data for one installed application.
#[derive(Debug, Clone, PartialEq, Eq)]
pub struct AppSearchData {
    /// Primary display name.
    pub name: String,
    /// `GenericName=` field of the `.desktop` file; empty when absent.
    pub generic_name: String,
    /// `Keywords=` entries joined by a single space; empty when absent.
    pub keywords: String,
    /// `Comment=` / description field; empty when absent.
    pub description: String,
}

/// The larger of two integers.
pub open spec fn max_i(a: int, b: int) -> int {
    if a >= b {
        a
    } else {
        b
    }
}

/// Best weighted score of the fields other than the name: generic name and
/// keywords count double, the description single; `i64::MIN` when none
/// matched.
pub open spec fn alt_score(generic: Option<i64>, keywords: Option<i64>, desc: Option<i64>) -> int {
    let g = match generic {
        Some(s) => 2 * s,
        None => i64::MIN as int,
    };
    let k = match keywords {
        Some(s) => 2 * s,
        None => i64::MIN as int,
    };
    let d = match desc {
        Some(s) => s as int,
        None => i64::MIN as int,
    };
    max_i(max_i(g, k), d)
}

/// The score an application gets from its per-field match results: the
/// name counts triple and supplies the highlight positions; the best field
/// wins. An application whose name does not match is still listed, without
/// highlights, when another field matched.
pub open spec fn combined_score(
    name: Option<(i64, Seq<usize>)>,
    generic: Option<i64>,
    keywords: Option<i64>,
    desc: Option<i64>,
) -> Option<(int, Seq<usize>)> {
    let best_alt = alt_score(generic, keywords, desc);
    match name {
        Some((s, idx)) => Some((max_i(3 * s, best_alt), idx)),
        None => if best_alt > i64::MIN {
            Some((best_alt, Seq::<usize>::empty()))
        } else {
            None
        },
    }
}

/// A weighted score that fits an `i64`.
pub open spec fn weighted_fits(o: Option<i64>, w: int) -> bool {
    o matches Some(s) ==> i64::MIN <= w * s <= i64::MAX
}

/// Combine per-field match results into the application's score and
/// highlight positions (see [`combined_score`]).
pub fn combine_scores(
    name: Option<(i64, Vec<usize>)>,
    generic: Option<i64>,
    keywords: Option<i64>,
    desc: Option<i64>,
) -> (r: Option<(i64, Vec<usize>)>)
    requires
        name matches Some((s, _)) ==> i64::MIN <= 3 * s <= i64::MAX,
        weighted_fits(generic, 2),
        weighted_fits(keywords, 2),
    ensures
        match (r, combined_score(indices_view(name), generic, keywords, desc)) {
            (Some((s, v)), Some((t, w))) => s == t && v@ == w,
            (None, None) => true,
            _ => false,
        },
{
    let g: i64 = match generic {
        Some(s) => 2 * s,
        None => i64::MIN,
    };
    let k: i64 = match keywords {
        Some(s) => 2 * s,
        None => i64::MIN,
    };
    let d: i64 = match desc {
        Some(s) => s,
        None => i64::MIN,
    };
    let gk = if g >= k {
        g
    } else {
        k
    };
    let best_alt = if gk >= d {
        gk
    } else {
        d
    };
    match name {
        Some((s, idx)) => {
            let n = 3 * s;
            let best = if n >= best_alt {
                n
            } else {
                best_alt
            };
            Some((best, idx))
        },
        None => if best_alt > i64::MIN {
            Some((best_alt, Vec::new()))
        } else {
            None
        },
    }
}

/// The score of an application against a query, from the matcher's results
/// on its fields.
pub open spec fn app_score(data: AppSearchData, query: Seq<char>) -> Option<(int, Seq<usize>)> {
    combined_score(
        skim_match_indices(data.name@, query),
        skim_match_score(data.generic_name@, query),
        skim_match_score(data.keywords@, query),
        skim_match_score(data.description@, query),
    )
}

/// A matcher score, when there is one, lies in the `i32` range.
pub open spec fn score_in_i32(o: Option<i64>) -> bool {
    o matches Some(s) ==> i32::MIN <= s <= i32::MAX
}

/// Score one application against `query`: name ×3, generic name ×2,
/// keywords ×2, description ×1; the best field wins and the name supplies
/// the highlight positions. `None` when no field matches. Every score the
/// matcher gave lies in the `i32` range, so none of them reaches the
/// `i64::MIN` that stands for a field without a match.
pub fn score_app(data: &AppSearchData, query: &str) -> (r: Option<(i64, Vec<usize>)>)
    ensures
        match (r, app_score(*data, query@)) {
            (Some((s, v)), Some((t, w))) => s == t && v@ == w,
            (None, None) => true,
            _ => false,
        },
        skim_match_indices(data.name@, query@) matches Some((s, _)) ==> i32::MIN <= s <= i32::MAX,
        score_in_i32(skim_match_score(data.generic_name@, query@)),
        score_in_i32(skim_match_score(data.keywords@, query@)),
        score_in_i32(skim_match_score(data.description@, query@)),
{
    let name = skim_fuzzy_indices(data.name.as_str(), query);
    let generic = skim_fuzzy_match(data.generic_name.as_str(), query);
    let keywords = skim_fuzzy_match(data.keywords.as_str(), query);
    let desc = skim_fuzzy_match(data.description.as_str(), query);
    combine_scores(name, generic, keywords, desc)
}


fn copy_indices(v: &Vec<usize>) -> (r: Vec<usize>)
    ensures
        r@ == v@,
{
    let mut r: Vec<usize> = Vec::new();
    let mut i: usize = 0;
    while i < v.len()
        invariant
            i <= v.len(),
            r@ == v@.take(i as int),
        decreases v.len() - i,
    {
        r.push(v[i]);
        i = i + 1;
        assert(r@ =~= v@.take(i as int));
    }
    assert(v@.take(v@.len() as int) =~= v@);
    r
}

// ── Ranking ───────────────────────────────────────────────────────────────────

/// One row of the search results: the application's position in the
/// corpus, its score and the name positions to highlight.
#[derive(Debug, Clone, PartialEq, Eq)]
pub struct RankedApp {
    /// Position of the application in the corpus.
    pub index: usize,
    /// Its combined score.
    pub score: i64,
    /// Character positions of the name to render in bold.
    pub indices: Vec<usize>,
}

/// Result order: higher score first; equal scores keep corpus order.
pub open spec fn ranks_before(s1: int, i1: int, s2: int, i2: int) -> bool {
    s1 > s2 || (s1 == s2 && i1 < i2)
}

/// The score part of a scoring result (0 when there is none).
pub open spec fn score_of(o: Option<(int, Seq<usize>)>) -> int {
    match o {
        Some((s, _)) => s,
        None => 0,
    }
}

/// Whether corpus position `i` appears in the results.
pub open spec fn listed(r: Seq<RankedApp>, i: int) -> bool {
    exists|k: int| 0 <= k < r.len() && r[k].index == i
}

/// The results for per-application scores `sc` (`None` for no match): the
/// matching applications sorted best first (a stable sort on descending
/// score), cut to `max_results`.
pub open spec fn is_ranking(r: Seq<RankedApp>, sc: Seq<Option<(int, Seq<usize>)>>, max_results: int) -> bool {
    &&& r.len() <= max_results
    &&& forall|k: int|
        0 <= k < r.len() ==> {
            &&& r[k].index < sc.len()
            &&& sc[r[k].index as int] == Some((r[k].score as int, r[k].indices@))
        }
    &&& forall|k: int, l: int|
        0 <= k < l < r.len() ==> ranks_before(
            r[k].score as int,
            r[k].index as int,
            r[l].score as int,
            r[l].index as int,
        )
    &&& forall|i: int|
        0 <= i < sc.len() && (#[trigger] sc[i]) is Some && !listed(r, i) ==> {
            &&& r.len() == max_results
            &&& r.len() > 0 ==> ranks_before(
                r.last().score as int,
                r.last().index as int,
                score_of(sc[i]),
                i,
            )
        }
}

/// A stored match result as plain values.
pub open spec fn match_view(o: Option<(i64, Vec<usize>)>) -> Option<(int, Seq<usize>)> {
    match o {
        Some((s, v)) => Some((s as int, v@)),
        None => None,
    }
}

/// The score part of a stored match result.
pub open spec fn sc_score(o: Option<(i64, Vec<usize>)>) -> i64 {
    match o {
        Some((s, _)) => s,
        None => 0,
    }
}

/// Order the matches best first (ties in corpus order) and keep at most
/// `max_results`; `scored[i]` is application `i`'s score and highlight
/// positions, `None` when it does not match.
pub fn rank_scored(scored: &Vec<Option<(i64, Vec<usize>)>>, max_results: usize) -> (r: Vec<RankedApp>)
    ensures
        is_ranking(r@, scored@.map_values(|o: Option<(i64, Vec<usize>)>| match_view(o)), max_results as int),
{
    let ghost sc = scored@.map_values(|o: Option<(i64, Vec<usize>)>| match_view(o));
    let n = scored.len();
    let mut out: Vec<RankedApp> = Vec::new();
    let mut done = false;
    while !done && out.len() < max_results
        invariant
            n == scored.len(),
            sc == scored@.map_values(|o: Option<(i64, Vec<usize>)>| match_view(o)),
            out.len() <= max_results,
            forall|k: int|
                0 <= k < out.len() ==> {
                    &&& out@[k].index < n
                    &&& sc[out@[k].index as int] == Some((out@[k].score as int, out@[k].indices@))
                },
            forall|k: int, l: int|
                0 <= k < l < out.len() ==> ranks_before(
                    out@[k].score as int,
                    out@[k].index as int,
                    out@[l].score as int,
                    out@[l].index as int,
                ),
            forall|i: int|
                0 <= i < n && (#[trigger] sc[i]) is Some && !listed(out@, i) && out.len() > 0 ==> ranks_before(
                    out@.last().score as int,
                    out@.last().index as int,
                    score_of(sc[i]),
                    i,
                ),
            done ==> forall|i: int| 0 <= i < n && (#[trigger] sc[i]) is Some ==> listed(out@, i),
        decreases max_results - out.len(), if done { 0int } else { 1int },
    {
        let has_last = out.len() > 0;
        let (last_score, last_index): (i64, usize) = if has_last {
            (out[out.len() - 1].score, out[out.len() - 1].index)
        } else {
            (0, 0)
        };
        let mut best: Option<(i64, usize)> = None;
        let mut k: usize = 0;
        while k < n
            invariant
                n == scored.len(),
                k <= n,
                has_last == (out.len() > 0),
                has_last ==> last_score == out@.last().score && last_index == out@.last().index,
                match best {
                    Some((bs, bi)) => {
                        &&& bi < k
                        &&& scored@[bi as int] is Some
                        &&& sc_score(scored@[bi as int]) == bs
                        &&& (has_last ==> ranks_before(last_score as int, last_index as int, bs as int, bi as int))
                        &&& forall|i: int|
                            0 <= i < k && (#[trigger] scored@[i]) is Some && (has_last ==> ranks_before(
                                last_score as int,
                                last_index as int,
                                sc_score(scored@[i]) as int,
                                i,
                            )) ==> (i == bi || ranks_before(bs as int, bi as int, sc_score(scored@[i]) as int, i))
                    },
                    None => forall|i: int|
                        0 <= i < k && (#[trigger] scored@[i]) is Some ==> has_last && !ranks_before(
                            last_score as int,
                            last_index as int,
                            sc_score(scored@[i]) as int,
                            i,
                        ),
                },
            decreases n - k,
        {
            if let Some((s, _)) = &scored[k] {
                let after = !has_last || *s < last_score || (*s == last_score && last_index < k);
                if after {
                    let better = match best {
                        None => true,
                        Some((bs, bi)) => *s > bs || (*s == bs && k < bi),
                    };
                    if better {
                        best = Some((*s, k));
                    }
                }
            }
            k = k + 1;
        }
        match best {
            None => {
                proof {
                    assert forall|i: int| 0 <= i < n && (#[trigger] sc[i]) is Some implies listed(out@, i) by {
                        assert(scored@[i] is Some);
                        if !listed(out@, i) {
                            assert(ranks_before(
                                out@.last().score as int,
                                out@.last().index as int,
                                score_of(sc[i]),
                                i,
                            ));
                        }
                    }
                }
                done = true;
            },
            Some((bs, bi)) => {
                let idx = match &scored[bi] {
                    Some((_, v)) => copy_indices(v),
                    None => Vec::new(),
                };
                let ghost prev = out@;
                out.push(RankedApp { index: bi, score: bs, indices: idx });
                proof {
                    assert forall|k: int, l: int| 0 <= k < l < out.len() implies ranks_before(
                        out@[k].score as int,
                        out@[k].index as int,
                        out@[l].score as int,
                        out@[l].index as int,
                    ) by {
                        if l == out.len() - 1 {
                            if k < prev.len() - 1 {
                                assert(ranks_before(
                                    prev[k].score as int,
                                    prev[k].index as int,
                                    prev.last().score as int,
                                    prev.last().index as int,
                                ));
                            }
                        } else {
                            assert(out@[k] == prev[k] && out@[l] == prev[l]);
                        }
                    }
                    assert forall|i: int|
                        0 <= i < n && (#[trigger] sc[i]) is Some && !listed(out@, i) && out.len() > 0 implies ranks_before(
                        out@.last().score as int,
                        out@.last().index as int,
                        score_of(sc[i]),
                        i,
                    ) by {
                        assert(scored@[i] is Some);
                        assert(out@[out.len() - 1].index == bi);
                        if listed(prev, i) {
                            let kk = choose|kk: int| 0 <= kk < prev.len() && prev[kk].index == i;
                            assert(out@[kk] == prev[kk]);
                        }
                    }
                }
            },
        }
    }
    out
}

/// The scores of the corpus against a query.
pub open spec fn app_scores(corpus: Seq<AppSearchData>, query: Seq<char>) -> Seq<Option<(int, Seq<usize>)>> {
    Seq::new(corpus.len(), |i: int| app_score(corpus[i], query))
}

/// Score every application against `query` and return the matches best
/// first, at most `max_results` of them; ties keep corpus order.
pub fn rank_matches(corpus: &Vec<AppSearchData>, query: &str, max_results: usize) -> (r: Vec<RankedApp>)
    ensures
        is_ranking(r@, app_scores(corpus@, query@), max_results as int),
{
    let n = corpus.len();
    let mut scored: Vec<Option<(i64, Vec<usize>)>> = Vec::new();
    let mut j: usize = 0;
    while j < n
        invariant
            n == corpus.len(),
            j <= n,
            scored.len() == j,
            forall|i: int| 0 <= i < j ==> match_view(#[trigger] scored@[i]) == app_score(corpus@[i], query@),
        decreases n - j,
    {
        let s = score_app(&corpus[j], query);
        proof {
            assert(match_view(s) == app_score(corpus@[j as int], query@));
        }
        scored.push(s);
        j = j + 1;
    }
    let r = rank_scored(&scored, max_results);
    assert(scored@.map_values(|o: Option<(i64, Vec<usize>)>| match_view(o)) =~= app_scores(corpus@, query@));
    r
}

/// The scores the name-only search gives: the matcher's score on each name,
/// with no highlights.
pub open spec fn name_scores(names: Seq<Seq<char>>, query: Seq<char>) -> Seq<Option<(int, Seq<usize>)>> {
    Seq::new(
        names.len(),
        |i: int| match skim_match_score(names[i], query) {
            Some(s) => Some((s as int, Seq::<usize>::empty())),
            None => None,
        },
    )
}

/// The name-only search of the flat-config launcher: applications whose
/// name matches `query`, best first (ties in list order), at most
/// `max_results`; an empty query lists all in order.
pub fn rank_by_name(names: &Vec<String>, query: &str, max_results: usize) -> (r: Vec<RankedApp>)
    ensures
        is_ranking(r@, name_scores(views(names@), query@), max_results as int),
{
    let n = names.len();
    let mut scored: Vec<Option<(i64, Vec<usize>)>> = Vec::new();
    let mut j: usize = 0;
    while j < n
        invariant
            n == names.len(),
            j <= n,
            scored.len() == j,
            forall|i: int|
                0 <= i < j ==> match_view(#[trigger] scored@[i]) == name_scores(views(names@), query@)[i],
        decreases n - j,
    {
        let s = match skim_fuzzy_match(names[j].as_str(), query) {
            Some(x) => Some((x, Vec::new())),
            None => None,
        };
        proof {
            assert(views(names@)[j as int] == names@[j as int]@);
            assert(match_view(s) == name_scores(views(names@), query@)[j as int]);
        }
        scored.push(s);
        j = j + 1;
    }
    let r = rank_scored(&scored, max_results);
    assert(scored@.map_values(|o: Option<(i64, Vec<usize>)>| match_view(o)) =~= name_scores(views(names@), query@));
    r
}

// ── Desktop IDs and pinned applications ──────────────────────────────────────

/// `".desktop"`.
pub open spec fn desktop_suffix() -> Seq<char> {
    seq!['.', 'd', 'e', 's', 'k', 't', 'o', 'p']
}

/// A desktop ID with a trailing `.desktop` removed.
pub open spec fn stem_of(id: Seq<char>) -> Seq<char> {
    if ends_with(id, desktop_suffix()) {
        id.take(id.len() - 8)
    } else {
        id
    }
}

/// The bare desktop-ID stem of an application: its ID without a trailing
/// `.desktop`, or the empty string when it has no ID.
pub fn desktop_id_stem(id: Option<&str>) -> (r: String)
    ensures
        r@ == match id {
            Some(s) => stem_of(s@),
            None => Seq::<char>::empty(),
        },
{
    match id {
        None => String::new(),
        Some(s) => {
            let c = chars_of(s);
            let suffix = vec!['.', 'd', 'e', 's', 'k', 't', 'o', 'p'];
            assert(suffix@ == desktop_suffix());
            let n = c.len();
            let mut matches = n >= 8;
            if matches {
                let mut j: usize = 0;
                while j < 8
                    invariant
                        n == c.len(),
                        n >= 8,
                        j <= 8,
                        suffix@ == desktop_suffix(),
                        matches == forall|t: int| 0 <= t < j ==> c@[n - 8 + t] == suffix@[t],
                    decreases 8 - j,
                {
                    matches = matches && c[n - 8 + j] == suffix[j];
                    j = j + 1;
                }
                if matches {
                    assert(c@.skip(n - 8) =~= desktop_suffix());
                } else {
                    assert(c@.skip(n - 8) != desktop_suffix()) by {
                        let t = choose|t: int| 0 <= t < 8 && c@[n - 8 + t] != suffix@[t];
                        assert(c@.skip(n - 8)[t] == c@[n - 8 + t]);
                    }
                }
            }
            if matches {
                let stem = slice_of(&c, 0, n - 8);
                assert(stem@ =~= c@.take(n - 8));
                string_of(stem.as_slice())
            } else {
                string_of(c.as_slice())
            }
        },
    }
}


/// Position of the first application whose stem is `p`.
pub open spec fn first_with_stem(stems: Seq<Seq<char>>, p: Seq<char>) -> Option<int>
    decreases stems.len(),
{
    if stems.len() == 0 {
        None
    } else {
        match first_with_stem(stems.drop_last(), p) {
            Some(i) => Some(i),
            None => if stems.last() == p {
                Some(stems.len() - 1)
            } else {
                None
            },
        }
    }
}

/// Pinned applications in pinned order: for each pinned stem, the first
/// application with that stem, if any.
pub open spec fn pinned_order(stems: Seq<Seq<char>>, pins: Seq<Seq<char>>) -> Seq<int>
    decreases pins.len(),
{
    if pins.len() == 0 {
        Seq::empty()
    } else {
        pinned_order(stems, pins.drop_last()) + match first_with_stem(stems, pins.last()) {
            Some(i) => seq![i],
            None => Seq::empty(),
        }
    }
}

/// Applications among the first `n` whose stem is not pinned, in order.
pub open spec fn unpinned_order(stems: Seq<Seq<char>>, pins: Seq<Seq<char>>, n: int) -> Seq<int>
    decreases n,
{
    if n <= 0 {
        Seq::empty()
    } else {
        unpinned_order(stems, pins, n - 1) + if pins.contains(stems[n - 1]) {
            Seq::<int>::empty()
        } else {
            seq![n - 1]
        }
    }
}

/// Positions as integers.
pub open spec fn as_ints(v: Seq<usize>) -> Seq<int> {
    v.map_values(|i: usize| i as int)
}

proof fn lemma_first_stem_step(stems: Seq<Seq<char>>, p: Seq<char>, j: int)
    requires
        0 <= j < stems.len(),
    ensures
        first_with_stem(stems.take(j + 1), p) == match first_with_stem(stems.take(j), p) {
            Some(i) => Some(i),
            None => if stems[j] == p {
                Some(j)
            } else {
                None
            },
        },
{
    assert(stems.take(j + 1).drop_last() =~= stems.take(j));
}

proof fn lemma_first_stem_prefix(stems: Seq<Seq<char>>, p: Seq<char>, j: int)
    requires
        0 <= j <= stems.len(),
        first_with_stem(stems.take(j), p) is Some,
    ensures
        first_with_stem(stems, p) == first_with_stem(stems.take(j), p),
    decreases stems.len(),
{
    if j == stems.len() {
        assert(stems.take(j) =~= stems);
    } else {
        assert(stems.drop_last().take(j) =~= stems.take(j));
        lemma_first_stem_prefix(stems.drop_last(), p, j);
    }
}

fn find_stem(stems: &Vec<String>, p: &String) -> (r: Option<usize>)
    ensures
        r matches Some(i) ==> i < stems@.len(),
        match r {
            Some(i) => first_with_stem(views(stems@), p@) == Some(i as int),
            None => first_with_stem(views(stems@), p@) is None,
        },
{
    let ghost vs = views(stems@);
    let mut j: usize = 0;
    while j < stems.len()
        invariant
            j <= stems.len(),
            vs == views(stems@),
            first_with_stem(vs.take(j as int), p@) is None,
        decreases stems.len() - j,
    {
        proof {
            lemma_first_stem_step(vs, p@, j as int);
        }
        if stems[j] == *p {
            proof {
                lemma_first_stem_prefix(vs, p@, j + 1);
            }
            return Some(j);
        }
        j = j + 1;
    }
    assert(vs.take(vs.len() as int) =~= vs);
    None
}

fn stem_is_pinned(stem: &String, pinned: &Vec<String>) -> (b: bool)
    ensures
        b == views(pinned@).contains(stem@),
{
    let mut k: usize = 0;
    while k < pinned.len()
        invariant
            k <= pinned.len(),
            forall|t: int| 0 <= t < k ==> pinned@[t]@ != stem@,
        decreases pinned.len() - k,
    {
        if pinned[k] == *stem {
            assert(views(pinned@)[k as int] == stem@);
            return true;
        }
        k = k + 1;
    }
    assert forall|t: int| 0 <= t < views(pinned@).len() implies views(pinned@)[t] != stem@ by {
        assert(views(pinned@)[t] == pinned@[t]@);
    }
    false
}

/// Split the applications (given by their desktop-ID stems) into the pinned
/// ones, in pinned order, and the rest, in their listed order. A pinned
/// stem names the first application with that stem; every application
/// whose stem is pinned is left out of the rest.
pub fn partition_apps(stems: &Vec<String>, pinned: &Vec<String>) -> (r: (Vec<usize>, Vec<usize>))
    ensures
        as_ints(r.0@) == pinned_order(views(stems@), views(pinned@)),
        as_ints(r.1@) == unpinned_order(views(stems@), views(pinned@), stems@.len() as int),
        forall|k: int| 0 <= k < r.0@.len() ==> r.0@[k] < stems@.len(),
        forall|k: int| 0 <= k < r.1@.len() ==> r.1@[k] < stems@.len(),
{
    let ghost vs = views(stems@);
    let ghost vp = views(pinned@);
    let mut pinned_out: Vec<usize> = Vec::new();
    let mut k: usize = 0;
    while k < pinned.len()
        invariant
            k <= pinned.len(),
            vs == views(stems@),
            vp == views(pinned@),
            as_ints(pinned_out@) == pinned_order(vs, vp.take(k as int)),
            forall|t: int| 0 <= t < pinned_out@.len() ==> pinned_out@[t] < stems@.len(),
        decreases pinned.len() - k,
    {
        assert(vp.take(k + 1).drop_last() =~= vp.take(k as int));
        assert(vp.take(k + 1).last() == pinned@[k as int]@);
        match find_stem(stems, &pinned[k]) {
            Some(i) => {
                pinned_out.push(i);
                assert(as_ints(pinned_out@) =~= pinned_order(vs, vp.take(k + 1)));
            },
            None => {
                assert(as_ints(pinned_out@) =~= pinned_order(vs, vp.take(k + 1)));
            },
        }
        k = k + 1;
    }
    assert(vp.take(vp.len() as int) =~= vp);
    let mut rest: Vec<usize> = Vec::new();
    let mut i: usize = 0;
    while i < stems.len()
        invariant
            i <= stems.len(),
            vs == views(stems@),
            vp == views(pinned@),
            as_ints(rest@) == unpinned_order(vs, vp, i as int),
            forall|t: int| 0 <= t < rest@.len() ==> rest@[t] < i,
        decreases stems.len() - i,
    {
        assert(vs[i as int] == stems@[i as int]@);
        if !stem_is_pinned(&stems[i], pinned) {
            rest.push(i);
        }
        assert(as_ints(rest@) =~= unpinned_order(vs, vp, i + 1));
        i = i + 1;
    }
    (pinned_out, rest)
}

/// The rows shown for an empty query: pinned applications first, then the
/// rest, cut to `max_results`.
pub open spec fn default_rows(stems: Seq<Seq<char>>, pins: Seq<Seq<char>>, max_results: int) -> Seq<
    int,
> {
    let all = pinned_order(stems, pins) + unpinned_order(stems, pins, stems.len() as int);
    if all.len() <= max_results {
        all
    } else {
        all.take(max_results)
    }
}

/// The applications listed for an empty query: pinned first (in pinned
/// order), then the others in their natural order, at most `max_results`.
pub fn default_order(stems: &Vec<String>, pinned: &Vec<String>, max_results: usize) -> (r: Vec<usize>)
    ensures
        as_ints(r@) == default_rows(views(stems@), views(pinned@), max_results as int),
        forall|k: int| 0 <= k < r@.len() ==> r@[k] < stems@.len(),
{
    let (p, rest) = partition_apps(stems, pinned);
    let mut out: Vec<usize> = Vec::new();
    let ghost all = as_ints(p@) + as_ints(rest@);
    assert(as_ints(p@).len() == p@.len());
    assert(as_ints(rest@).len() == rest@.len());
    let mut k: usize = 0;
    while k < p.len() && out.len() < max_results
        invariant
            k <= p.len(),
            out.len() == k,
            k <= max_results,
            as_ints(out@) == all.take(k as int),
            all == as_ints(p@) + as_ints(rest@),
            forall|t: int| 0 <= t < p@.len() ==> p@[t] < stems@.len(),
            forall|t: int| 0 <= t < out@.len() ==> out@[t] < stems@.len(),
        decreases p.len() - k,
    {
        out.push(p[k]);
        k = k + 1;
        assert(as_ints(out@) =~= all.take(k as int));
    }
    let mut j: usize = 0;
    while j < rest.len() && out.len() < max_results
        invariant
            j <= rest.len(),
            out.len() == p.len() + j || (j == 0 && out.len() == max_results),
            out.len() <= max_results,
            as_ints(out@) == all.take(out.len() as int),
            all == as_ints(p@) + as_ints(rest@),
            out.len() < max_results ==> out.len() == p.len() + j,
            out.len() <= p.len() + j,
            as_ints(p@).len() == p@.len(),
            as_ints(rest@).len() == rest@.len(),
            forall|t: int| 0 <= t < rest@.len() ==> rest@[t] < stems@.len(),
            forall|t: int| 0 <= t < out@.len() ==> out@[t] < stems@.len(),
        decreases rest.len() - j,
    {
        out.push(rest[j]);
        j = j + 1;
        assert(as_ints(out@) =~= all.take(out.len() as int));
    }
    assert(all.take(all.len() as int) =~= all);
    proof {
        if out.len() < max_results {
            assert(out.len() == all.len());
        }
    }
    out
}


// ── Row label ─────────────────────────────────────────────────────────────────

/// `"<b>"`.
pub open spec fn bold_open() -> Seq<char> {
    seq!['<', 'b', '>']
}

/// `"</b>"`.
pub open spec fn bold_close() -> Seq<char> {
    seq!['<', '/', 'b', '>']
}

/// Markup for a name given its characters already escaped for Pango, one
/// string per character: the characters at `bold` positions are wrapped in
/// `<b>…</b>`.
pub open spec fn markup_of(escaped: Seq<Seq<char>>, bold: Seq<usize>) -> Seq<char>
    decreases escaped.len(),
{
    if escaped.len() == 0 {
        Seq::empty()
    } else {
        let i = escaped.len() - 1;
        markup_of(escaped.drop_last(), bold) + if bold.contains(i as usize) {
            bold_open() + escaped.last() + bold_close()
        } else {
            escaped.last()
        }
    }
}

/// Pango markup for a result row: `escaped[i]` is the `i`-th character of
/// the name escaped for markup; the characters at the matched positions are
/// rendered bold.
pub fn highlight_markup(escaped: &Vec<String>, bold: &Vec<usize>) -> (r: String)
    ensures
        r@ == markup_of(views(escaped@), bold@),
{
    let ghost es = views(escaped@);
    let open_tag = vec!['<', 'b', '>'];
    let close_tag = vec!['<', '/', 'b', '>'];
    assert(open_tag@ == bold_open());
    assert(close_tag@ == bold_close());
    let mut out: Vec<char> = Vec::new();
    let mut i: usize = 0;
    while i < escaped.len()
        invariant
            i <= escaped.len(),
            es == views(escaped@),
            open_tag@ == bold_open(),
            close_tag@ == bold_close(),
            out@ == markup_of(es.take(i as int), bold@),
        decreases escaped.len() - i,
    {
        let piece = chars_of(escaped[i].as_str());
        let mut is_bold = false;
        let mut k: usize = 0;
        while k < bold.len()
            invariant
                k <= bold.len(),
                is_bold == exists|t: int| 0 <= t < k && bold@[t] == i,
            decreases bold.len() - k,
        {
            if bold[k] == i {
                is_bold = true;
            }
            k = k + 1;
        }
        assert(is_bold == bold@.contains(i));
        assert(es.take(i + 1).drop_last() =~= es.take(i as int));
        assert(es.take(i + 1).last() == escaped@[i as int]@);
        if is_bold {
            let a = concat_from(&out, &open_tag, 0);
            let b = concat_from(&a, &piece, 0);
            out = concat_from(&b, &close_tag, 0);
            assert(open_tag@.skip(0) =~= open_tag@);
            assert(piece@.skip(0) =~= piece@);
            assert(close_tag@.skip(0) =~= close_tag@);
        } else {
            out = concat_from(&out, &piece, 0);
            assert(piece@.skip(0) =~= piece@);
        }
        i = i + 1;
        assert(out@ =~= markup_of(es.take(i as int), bold@));
    }
    assert(es.take(es.len() as int) =~= es);
    string_of(out.as_slice())
}

// ── Settings ──────────────────────────────────────────────────────────────────

/// The launcher's settings with every default applied.
#[derive(Debug, Clone, PartialEq, Eq)]
pub struct LauncherSettings {
    /// Rows shown at most (default 10).
    pub max_results: usize,
    /// Button label (default `"Apps"`).
    pub button_label: String,
    /// Popup width in pixels (default 280).
    pub popup_width: i32,
    /// Minimum popup list height in pixels (default 200).
    pub popup_min_height: i32,
    /// Pinned desktop-ID stems, in order.
    pub pinned: Vec<String>,
    /// Hover delay before opening, in milliseconds (default 150).
    pub hover_delay_ms: u64,
}

/// `"Apps"`.
pub open spec fn apps_word() -> Seq<char> {
    seq!['A', 'p', 'p', 's']
}

/// Apply the launcher defaults to its configuration.
pub fn launcher_settings(c: &LauncherConfig) -> (s: LauncherSettings)
    ensures
        s.max_results == match c.max_results {
            Some(n) => n as usize,
            None => 10usize,
        },
        s.button_label@ == match c.button_label {
            Some(l) => l@,
            None => apps_word(),
        },
        s.popup_width == match c.popup_width {
            Some(w) => w,
            None => 280i32,
        },
        s.popup_min_height == match c.popup_min_height {
            Some(h) => h,
            None => 200i32,
        },
        views(s.pinned@) == views(c.pinned@),
        s.hover_delay_ms == match c.hover_delay_ms {
            Some(d) => d as u64,
            None => 150u64,
        },
{
    let max_results: usize = match c.max_results {
        Some(n) => n as usize,
        None => 10,
    };
    let button_label = match &c.button_label {
        Some(l) => l.clone(),
        None => {
            let v = vec!['A', 'p', 'p', 's'];
            assert(v@ == apps_word());
            string_of(v.as_slice())
        },
    };
    let mut pinned: Vec<String> = Vec::new();
    let mut k: usize = 0;
    while k < c.pinned.len()
        invariant
            k <= c.pinned.len(),
            views(pinned@) == views(c.pinned@).take(k as int),
        decreases c.pinned.len() - k,
    {
        let item = c.pinned[k].clone();
        proof {
            lemma_views_push(pinned@, item);
        }
        pinned.push(item);
        k = k + 1;
        assert(views(pinned@) =~= views(c.pinned@).take(k as int));
    }
    assert(views(c.pinned@).take(c.pinned@.len() as int) =~= views(c.pinned@));
    LauncherSettings {
        max_results,
        button_label,
        popup_width: match c.popup_width {
            Some(w) => w,
            None => 280,
        },
        popup_min_height: match c.popup_min_height {
            Some(h) => h,
            None => 200,
        },
        pinned,
        hover_delay_ms: match c.hover_delay_ms {
            Some(d) => d as u64,
            None => 150,
        },
    }
}


// ── Laws of the ranking ───────────────────────────────────────────────────────

proof fn lemma_rank_step(
    r1: Seq<RankedApp>,
    r2: Seq<RankedApp>,
    sc: Seq<Option<(int, Seq<usize>)>>,
    m1: int,
    m2: int,
    k: int,
)
    requires
        is_ranking(r1, sc, m1),
        is_ranking(r2, sc, m2),
        m1 <= m2,
        0 <= k < r1.len(),
        k < r2.len(),
        forall|j: int| 0 <= j < k ==> r1[j].index == r2[j].index,
    ensures
        r1[k].index == r2[k].index,
{
    let c = r1[k];
    let d = r2[k];
    let ci = c.index as int;
    let di = d.index as int;
    assert(sc[ci] == Some((c.score as int, c.indices@)));
    assert(sc[di] == Some((d.score as int, d.indices@)));
    if ranks_before(c.score as int, ci, d.score as int, di) {
        assert((sc[ci]) is Some);
        if listed(r2, ci) {
            let p = choose|p: int| 0 <= p < r2.len() && r2[p].index == ci;
            if p < k {
                assert(r1[p].index == ci);
                assert(ranks_before(r1[p].score as int, r1[p].index as int, c.score as int, ci));
                assert(sc[ci] == Some((r1[p].score as int, r1[p].indices@)));
            } else if p > k {
                assert(ranks_before(d.score as int, di, r2[p].score as int, ci));
                assert(sc[ci] == Some((r2[p].score as int, r2[p].indices@)));
            }
        } else {
            let last = r2.len() - 1;
            assert(ranks_before(r2.last().score as int, r2.last().index as int, score_of(sc[ci]), ci));
            if k < last {
                assert(ranks_before(d.score as int, di, r2[last].score as int, r2[last].index as int));
            }
        }
    } else if ranks_before(d.score as int, di, c.score as int, ci) {
        assert((sc[di]) is Some);
        if listed(r1, di) {
            let p = choose|p: int| 0 <= p < r1.len() && r1[p].index == di;
            if p < k {
                assert(r2[p].index == di);
                assert(ranks_before(r2[p].score as int, r2[p].index as int, d.score as int, di));
                assert(sc[di] == Some((r2[p].score as int, r2[p].indices@)));
            } else if p > k {
                assert(ranks_before(c.score as int, ci, r1[p].score as int, di));
                assert(sc[di] == Some((r1[p].score as int, r1[p].indices@)));
            }
        } else {
            let last = r1.len() - 1;
            assert(ranks_before(r1.last().score as int, r1.last().index as int, score_of(sc[di]), di));
            if k < last {
                assert(ranks_before(c.score as int, ci, r1[last].score as int, r1[last].index as int));
            }
        }
    }
}

proof fn lemma_rank_prefix_upto(
    r1: Seq<RankedApp>,
    r2: Seq<RankedApp>,
    sc: Seq<Option<(int, Seq<usize>)>>,
    m1: int,
    m2: int,
    k: int,
)
    requires
        is_ranking(r1, sc, m1),
        is_ranking(r2, sc, m2),
        m1 <= m2,
        0 <= k <= r1.len(),
        k <= r2.len(),
    ensures
        forall|j: int| 0 <= j < k ==> r1[j].index == r2[j].index,
    decreases k,
{
    if k > 0 {
        lemma_rank_prefix_upto(r1, r2, sc, m1, m2, k - 1);
        lemma_rank_step(r1, r2, sc, m1, m2, k - 1);
    }
}

/// The search results under a smaller limit are the first rows of the
/// results under a larger one: the ranking is one sorted order, cut.
pub proof fn lemma_ranking_prefix(
    r1: Seq<RankedApp>,
    r2: Seq<RankedApp>,
    sc: Seq<Option<(int, Seq<usize>)>>,
    m1: int,
    m2: int,
)
    requires
        is_ranking(r1, sc, m1),
        is_ranking(r2, sc, m2),
        m1 <= m2,
    ensures
        r1.len() <= r2.len(),
        forall|j: int|
            0 <= j < r1.len() ==> {
                &&& r1[j].index == r2[j].index
                &&& r1[j].score == r2[j].score
                &&& r1[j].indices@ == r2[j].indices@
            },
{
    let n = if r1.len() <= r2.len() {
        r1.len() as int
    } else {
        r2.len() as int
    };
    lemma_rank_prefix_upto(r1, r2, sc, m1, m2, n);
    if r2.len() < r1.len() {
        // r2 is shorter than its limit, so it lists every match, r1[n] too.
        let ci = r1[n].index as int;
        assert(sc[ci] == Some((r1[n].score as int, r1[n].indices@)));
        assert(listed(r2, ci));
        let p = choose|p: int| 0 <= p < r2.len() && r2[p].index == ci;
        assert(r1[p].index == ci);
        assert(ranks_before(r1[p].score as int, r1[p].index as int, r1[n].score as int, ci));
        assert(sc[ci] == Some((r1[p].score as int, r1[p].indices@)));
    }
    assert forall|j: int| 0 <= j < r1.len() implies {
        &&& r1[j].index == r2[j].index
        &&& r1[j].score == r2[j].score
        &&& r1[j].indices@ == r2[j].indices@
    } by {
        let i = r1[j].index as int;
        assert(sc[i] == Some((r1[j].score as int, r1[j].indices@)));
        assert(sc[i] == Some((r2[j].score as int, r2[j].indices@)));
    }
}

} // verus!

