//! Choosing what to load: auto-detection among the candidate keys of a base
//! name, and routing an explicit path by its extension.

use crate::format::{tokens_of, AnyFormat, Format};
use crate::source::{present_in, Source};
use crate::text::{candidate_key, key_for, same_text};
use vstd::prelude::*;
use vstd::string::*;

verus! {

/// A key to probe, and the position, among the registered formats, of the
/// format that would decode it.
#[derive(Debug)]
pub struct Candidate {
    pub key: String,
    pub format: usize,
}

/// The plain-value picture of a [`Candidate`].
pub struct CandidateView {
    pub key: Seq<char>,
    pub format: nat,
}

impl View for Candidate {
    type V = CandidateView;

    open spec fn view(&self) -> CandidateView {
        CandidateView { key: self.key@, format: self.format as nat }
    }
}

/// The winner of an auto-detection, and the keys that lost to it.
#[derive(Debug)]
pub struct Detection {
    /// The first candidate key that exists.
    pub key: String,
    /// The position of the winner's format among the registered formats.
    pub format: usize,
    /// Every later candidate key that exists too, in probing order.
    pub conflicts: Vec<String>,
}

/// The plain-value picture of a [`Detection`].
pub struct DetectionView {
    pub key: Seq<char>,
    pub format: nat,
    pub conflicts: Seq<Seq<char>>,
}

impl View for Detection {
    type V = DetectionView;

    open spec fn view(&self) -> DetectionView {
        DetectionView {
            key: self.key@,
            format: self.format as nat,
            conflicts: texts(self.conflicts@),
        }
    }
}

/// The plain text of a list of keys.
pub open spec fn texts(keys: Seq<String>) -> Seq<Seq<char>> {
    keys.map_values(|key: String| key@)
}

/// The plain-value picture of a list of candidates.
pub open spec fn candidate_views(candidates: Seq<Candidate>) -> Seq<CandidateView> {
    candidates.map_values(|c: Candidate| c@)
}

/// The candidates that one format contributes: one per token, in the order
/// the format reports them.
pub open spec fn keys_of(base: Seq<char>, tokens: Seq<Seq<char>>, format: nat) -> Seq<CandidateView> {
    tokens.map_values(|token: Seq<char>| CandidateView { key: key_for(base, token), format })
}

/// Every key a load of `base` probes, in probing order: format by format in
/// registration order, and within a format token by token.
pub open spec fn candidates_of(base: Seq<char>, formats: Seq<AnyFormat>) -> Seq<CandidateView>
    decreases formats.len(),
{
    if formats.len() == 0 {
        Seq::empty()
    } else {
        candidates_of(base, formats.drop_last()) + keys_of(
            base,
            formats.last().tokens(),
            (formats.len() - 1) as nat,
        )
    }
}

/// The answers that a source holding `held` gives when the candidates are
/// probed one after the other.
pub open spec fn answers(candidates: Seq<CandidateView>, held: Map<Seq<char>, Seq<u8>>) -> Seq<
    bool,
> {
    Seq::new(candidates.len(), |i: int| present_in(held, candidates[i].key))
}

/// Whether `hit` is what `source` may answer when asked whether `key`
/// exists.
pub open spec fn is_answer<S: Source + ?Sized>(source: &S, key: Seq<char>, hit: bool) -> bool {
    exists|probe: &str| #[trigger] call_ensures(S::contains, (source, probe), hit) && probe@ == key
}

/// Whether `hits` are answers of `source` to the probes of `candidates`:
/// one answer for each candidate, each an answer that the source may give
/// for that candidate's key.
pub open spec fn probed<S: Source + ?Sized>(
    source: &S,
    candidates: Seq<CandidateView>,
    hits: Seq<bool>,
) -> bool {
    &&& hits.len() == candidates.len()
    &&& forall|j: int|
        0 <= j < candidates.len() ==> is_answer(source, (#[trigger] candidates[j]).key, hits[j])
}

/// Whether the `i`-th probe found something. A probe that was never made
/// found nothing.
pub open spec fn is_hit(hits: Seq<bool>, i: int) -> bool {
    0 <= i < hits.len() && hits[i]
}

/// Whether candidate `w` wins: it exists, and no candidate before it does.
pub open spec fn is_winner(candidates: Seq<CandidateView>, hits: Seq<bool>, w: int) -> bool {
    &&& 0 <= w < candidates.len()
    &&& is_hit(hits, w)
    &&& forall|j: int| 0 <= j < w ==> !is_hit(hits, j)
}

/// The keys, among the first `upto` candidates, that exist and come after
/// candidate `w`, in probing order.
pub open spec fn conflicts_of(
    candidates: Seq<CandidateView>,
    hits: Seq<bool>,
    w: int,
    upto: int,
) -> Seq<Seq<char>>
    decreases upto,
{
    if upto <= 0 || upto <= w + 1 || upto > candidates.len() {
        Seq::empty()
    } else if is_hit(hits, upto - 1) {
        conflicts_of(candidates, hits, w, upto - 1).push(candidates[upto - 1].key)
    } else {
        conflicts_of(candidates, hits, w, upto - 1)
    }
}

/// What auto-detection decides once every candidate has been probed: no
/// winner where nothing exists, else the first existing candidate with every
/// later existing key as a conflict.
pub open spec fn detection_of(candidates: Seq<CandidateView>, hits: Seq<bool>) -> Option<
    DetectionView,
> {
    if exists|w: int| is_winner(candidates, hits, w) {
        let w = choose|w: int| is_winner(candidates, hits, w);
        Some(
            DetectionView {
                key: candidates[w].key,
                format: candidates[w].format,
                conflicts: conflicts_of(candidates, hits, w, candidates.len() as int),
            },
        )
    } else {
        None
    }
}

/// There is at most one winner.
pub proof fn lemma_winner_unique(candidates: Seq<CandidateView>, hits: Seq<bool>, a: int, b: int)
    requires
        is_winner(candidates, hits, a),
        is_winner(candidates, hits, b),
    ensures
        a == b,
{
    if a < b {
        assert(!is_hit(hits, a));
    } else if b < a {
        assert(!is_hit(hits, b));
    }
}

/// The conflicts are exactly the keys of the candidates that exist and come
/// after the winner.
pub proof fn lemma_conflicts_are_later_hits(
    candidates: Seq<CandidateView>,
    hits: Seq<bool>,
    w: int,
    upto: int,
    key: Seq<char>,
)
    requires
        0 <= w,
        upto <= candidates.len(),
    ensures
        conflicts_of(candidates, hits, w, upto).contains(key) <==> exists|j: int|
            w < j < upto && is_hit(hits, j) && #[trigger] candidates[j].key == key,
    decreases upto,
{
    if upto <= 0 || upto <= w + 1 {
        assert(conflicts_of(candidates, hits, w, upto) =~= Seq::<Seq<char>>::empty());
    } else {
        let before = conflicts_of(candidates, hits, w, upto - 1);
        lemma_conflicts_are_later_hits(candidates, hits, w, upto - 1, key);
        if is_hit(hits, upto - 1) {
            let all = before.push(candidates[upto - 1].key);
            if all.contains(key) {
                let at = choose|at: int| 0 <= at < all.len() && all[at] == key;
                if at < before.len() {
                    assert(before[at] == key);
                    assert(before.contains(key));
                } else {
                    assert(candidates[upto - 1].key == key);
                }
            }
            if exists|j: int| w < j < upto && is_hit(hits, j) && #[trigger] candidates[j].key == key {
                let j = choose|j: int|
                    w < j < upto && is_hit(hits, j) && #[trigger] candidates[j].key == key;
                if j < upto - 1 {
                    assert(before.contains(key));
                    let at = choose|at: int| 0 <= at < before.len() && before[at] == key;
                    assert(all[at] == key);
                } else {
                    assert(all[before.len() as int] == key);
                }
            }
        }
    }
}

/// First wins: where several candidates exist, the one probed first is
/// loaded, in its own format, and each of the others is among the conflicts.
pub proof fn lemma_first_existing_wins(
    candidates: Seq<CandidateView>,
    hits: Seq<bool>,
    first: int,
    later: int,
)
    requires
        is_winner(candidates, hits, first),
        first < later < candidates.len(),
        is_hit(hits, later),
    ensures
        detection_of(candidates, hits) matches Some(d) && d.key == candidates[first].key
            && d.format == candidates[first].format && d.conflicts.contains(candidates[later].key),
{
    let w = choose|w: int| is_winner(candidates, hits, w);
    lemma_winner_unique(candidates, hits, w, first);
    lemma_conflicts_are_later_hits(
        candidates,
        hits,
        first,
        candidates.len() as int,
        candidates[later].key,
    );
}

/// Conflicts are informational: what exists after the winner changes
/// neither the key that is loaded nor its format.
pub proof fn lemma_conflicts_do_not_change_the_winner(
    candidates: Seq<CandidateView>,
    hits: Seq<bool>,
    other: Seq<bool>,
    w: int,
)
    requires
        is_winner(candidates, hits, w),
        is_winner(candidates, other, w),
    ensures
        detection_of(candidates, hits) matches Some(d) && detection_of(candidates, other)
            matches Some(e) && d.key == e.key && d.format == e.format,
{
    let a = choose|a: int| is_winner(candidates, hits, a);
    lemma_winner_unique(candidates, hits, a, w);
    let b = choose|b: int| is_winner(candidates, other, b);
    lemma_winner_unique(candidates, other, b, w);
}

/// Where no candidate exists there is no winner, and where one exists there
/// is one.
pub proof fn lemma_found_iff_some_candidate_exists(
    candidates: Seq<CandidateView>,
    hits: Seq<bool>,
)
    ensures
        detection_of(candidates, hits) is Some <==> exists|i: int|
            0 <= i < candidates.len() && is_hit(hits, i),
{
    if exists|i: int| 0 <= i < candidates.len() && is_hit(hits, i) {
        let i = choose|i: int| 0 <= i < candidates.len() && is_hit(hits, i);
        lemma_some_hit_has_a_winner(candidates, hits, i);
    }
}

/// Before any candidate that exists there is a first one.
proof fn lemma_some_hit_has_a_winner(candidates: Seq<CandidateView>, hits: Seq<bool>, i: int)
    requires
        0 <= i < candidates.len(),
        is_hit(hits, i),
    ensures
        exists|w: int| is_winner(candidates, hits, w),
    decreases i,
{
    if exists|j: int| 0 <= j < i && is_hit(hits, j) {
        let j = choose|j: int| 0 <= j < i && is_hit(hits, j);
        lemma_some_hit_has_a_winner(candidates, hits, j);
    } else {
        assert(is_winner(candidates, hits, i));
    }
}

/// A source that holds nothing has no winner, whatever is asked of it.
pub proof fn lemma_empty_source_finds_nothing(candidates: Seq<CandidateView>)
    ensures
        detection_of(candidates, answers(candidates, Map::<Seq<char>, Seq<u8>>::empty())) is None,
{
    lemma_found_iff_some_candidate_exists(
        candidates,
        answers(candidates, Map::<Seq<char>, Seq<u8>>::empty()),
    );
}

/// Every candidate points at a registered format, and its key is the base
/// name joined with one of that format's tokens.
pub proof fn lemma_candidates_point_at_formats(base: Seq<char>, formats: Seq<AnyFormat>, i: int)
    requires
        0 <= i < candidates_of(base, formats).len(),
    ensures
        candidates_of(base, formats)[i].format < formats.len(),
        exists|t: int|
            0 <= t < formats[candidates_of(base, formats)[i].format as int].tokens().len()
                && candidates_of(base, formats)[i].key == key_for(
                base,
                #[trigger] formats[candidates_of(base, formats)[i].format as int].tokens()[t],
            ),
    decreases formats.len(),
{
    let before = candidates_of(base, formats.drop_last());
    if i < before.len() {
        lemma_candidates_point_at_formats(base, formats.drop_last(), i);
        let f: int = before[i].format as int;
        assert(formats.drop_last()[f] == formats[f]);
    } else {
        let t: int = i - before.len();
        let last: int = formats.len() - 1;
        assert(candidates_of(base, formats)[i] == keys_of(
            base,
            formats.last().tokens(),
            last as nat,
        )[t]);
        assert(candidates_of(base, formats)[i].key == key_for(base, formats[last].tokens()[t]));
    }
}

/// Lists every key a load of `base_name` probes, in probing order.
pub fn candidates(base_name: &str, formats: &Vec<AnyFormat>) -> (list: Vec<Candidate>)
    ensures
        candidate_views(list@) == candidates_of(base_name@, formats@),
{
    let mut list: Vec<Candidate> = Vec::new();
    let mut f: usize = 0;
    assert(formats@.take(0) =~= Seq::<AnyFormat>::empty());
    assert(candidate_views(list@) =~= candidates_of(base_name@, formats@.take(0)));
    while f < formats.len()
        invariant
            f <= formats.len(),
            candidate_views(list@) == candidates_of(base_name@, formats@.take(f as int)),
        decreases formats.len() - f,
    {
        let extensions = formats[f].extensions();
        let ghost before = candidate_views(list@);
        let mut t: usize = 0;
        while t < extensions.len()
            invariant
                t <= extensions.len(),
                f < formats.len(),
                tokens_of(extensions@) == formats@[f as int].tokens(),
                candidate_views(list@) == before + keys_of(
                    base_name@,
                    formats@[f as int].tokens().take(t as int),
                    f as nat,
                ),
            decreases extensions.len() - t,
        {
            let key = candidate_key(base_name, extensions[t]);
            let ghost tokens = formats@[f as int].tokens();
            let ghost earlier = candidate_views(list@);
            let ghost added = CandidateView { key: key@, format: f as nat };
            assert(extensions@[t as int]@ == tokens_of(extensions@)[t as int]);
            list.push(Candidate { key, format: f });
            assert(candidate_views(list@) =~= earlier.push(added));
            assert(tokens.take(t + 1) =~= tokens.take(t as int).push(tokens[t as int]));
            assert(keys_of(base_name@, tokens.take(t + 1), f as nat) =~= keys_of(
                base_name@,
                tokens.take(t as int),
                f as nat,
            ).push(added));
            assert(candidate_views(list@) =~= before + keys_of(
                base_name@,
                tokens.take(t + 1),
                f as nat,
            ));
            t = t + 1;
        }
        assert(formats@[f as int].tokens().take(t as int) =~= formats@[f as int].tokens());
        assert(formats@.take(f + 1).drop_last() =~= formats@.take(f as int));
        assert(formats@.take(f + 1).last() == formats@[f as int]);
        f = f + 1;
    }
    assert(formats@.take(f as int) =~= formats@);
    list
}

/// Decides an auto-detection from the answers of the probes: `hits[i]` says
/// whether the key of `candidates[i]` exists. The first existing candidate
/// wins; every later existing key is recorded as a conflict and changes
/// nothing else. Without an existing candidate there is no winner.
pub fn resolve(candidates: &Vec<Candidate>, hits: &Vec<bool>) -> (found: Option<Detection>)
    ensures
        match found {
            Some(d) => detection_of(candidate_views(candidates@), hits@) == Some(d@),
            None => detection_of(candidate_views(candidates@), hits@) is None,
        },
{
    let ghost views = candidate_views(candidates@);
    let n: usize = candidates.len();
    let mut w: usize = 0;
    while w < n && !(w < hits.len() && hits[w])
        invariant
            w <= n == candidates.len(),
            forall|j: int| 0 <= j < w ==> !is_hit(hits@, j),
        decreases n - w,
    {
        w = w + 1;
    }
    if w == n {
        proof {
            if exists|k: int| is_winner(views, hits@, k) {
                let k = choose|k: int| is_winner(views, hits@, k);
                assert(!is_hit(hits@, k));
            }
        }
        return None;
    }
    proof {
        assert(is_winner(views, hits@, w as int));
        let k = choose|k: int| is_winner(views, hits@, k);
        lemma_winner_unique(views, hits@, k, w as int);
    }
    let mut conflicts: Vec<String> = Vec::new();
    let mut i: usize = w + 1;
    assert(texts(conflicts@) =~= conflicts_of(views, hits@, w as int, i as int));
    while i < n
        invariant
            w < i <= n == candidates.len(),
            views == candidate_views(candidates@),
            texts(conflicts@) == conflicts_of(views, hits@, w as int, i as int),
        decreases n - i,
    {
        if i < hits.len() && hits[i] {
            conflicts.push(candidates[i].key.clone());
            assert(texts(conflicts@) =~= conflicts_of(views, hits@, w as int, i + 1));
        }
        i = i + 1;
    }
    Some(Detection { key: candidates[w].key.clone(), format: candidates[w].format, conflicts })
}

/// Whether `ext` is one of `extensions`.
pub fn claims(extensions: &'static [&'static str], ext: &str) -> (claimed: bool)
    ensures
        claimed == tokens_of(extensions@).contains(ext@),
{
    let mut t: usize = 0;
    while t < extensions.len()
        invariant
            t <= extensions.len(),
            forall|j: int| 0 <= j < t ==> tokens_of(extensions@)[j] != ext@,
        decreases extensions.len() - t,
    {
        if same_text(extensions[t], ext) {
            assert(tokens_of(extensions@)[t as int] == ext@);
            return true;
        }
        t = t + 1;
    }
    false
}

/// Whether format `i` is the one an explicit load of a path with extension
/// `ext` goes to: the first registered format that claims `ext`.
pub open spec fn is_route(formats: Seq<AnyFormat>, ext: Seq<char>, i: int) -> bool {
    &&& 0 <= i < formats.len()
    &&& formats[i].tokens().contains(ext)
    &&& forall|j: int| 0 <= j < i ==> !formats[j].tokens().contains(ext)
}

/// The position of the format an explicit load of a path with extension
/// `ext` goes to, or nothing where no registered format claims `ext`.
pub open spec fn route_of(formats: Seq<AnyFormat>, ext: Seq<char>) -> Option<nat> {
    if exists|i: int| is_route(formats, ext, i) {
        Some((choose|i: int| is_route(formats, ext, i)) as nat)
    } else {
        None
    }
}

/// An extension has at most one route.
pub proof fn lemma_route_unique(formats: Seq<AnyFormat>, ext: Seq<char>, a: int, b: int)
    requires
        is_route(formats, ext, a),
        is_route(formats, ext, b),
    ensures
        a == b,
{
    if a < b {
        assert(!formats[a].tokens().contains(ext));
    } else if b < a {
        assert(!formats[b].tokens().contains(ext));
    }
}

/// Picks the format for an explicit path by its extension: the first
/// registered format that claims it, if any does.
pub fn route(formats: &Vec<AnyFormat>, ext: &str) -> (chosen: Option<usize>)
    ensures
        match chosen {
            Some(i) => i < formats.len() && route_of(formats@, ext@) == Some(i as nat),
            None => route_of(formats@, ext@) is None,
        },
{
    let mut i: usize = 0;
    while i < formats.len()
        invariant
            i <= formats.len(),
            forall|j: int| 0 <= j < i ==> !formats@[j].tokens().contains(ext@),
        decreases formats.len() - i,
    {
        if claims(formats[i].extensions(), ext) {
            proof {
                assert(is_route(formats@, ext@, i as int));
                let k = choose|k: int| is_route(formats@, ext@, k);
                lemma_route_unique(formats@, ext@, k, i as int);
            }
            return Some(i);
        }
        i = i + 1;
    }
    proof {
        if exists|k: int| is_route(formats@, ext@, k) {
            let k = choose|k: int| is_route(formats@, ext@, k);
            assert(!formats@[k].tokens().contains(ext@));
        }
    }
    None
}

} // verus!
