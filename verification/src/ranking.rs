//! Fuzzy filtering: which entries of a list match what was typed, best first.

use fuzzy_matcher::skim::SkimMatcherV2;
use fuzzy_matcher::FuzzyMatcher;

use vstd::prelude::*;

verus! {

/// The score that `SkimMatcherV2`, with its default settings, gives `choice` for `pattern`.
pub uninterp spec fn fuzzy_score(choice: Seq<char>, pattern: Seq<char>) -> Option<i64>;

/// `SkimMatcherV2::fuzzy_match` scores one choice against a pattern, or finds no match.
///
/// With the default settings the score depends on the two strings alone: what the matcher
/// keeps between calls are buffers.
#[verifier::external_body]
fn fuzzy_match(choice: &str, pattern: &str) -> (score: Option<i64>)
    ensures
        score == fuzzy_score(choice@, pattern@),
{
    SkimMatcherV2::default().fuzzy_match(choice, pattern)
}

/// An entry's place in the list, and its score.
pub type Match = (usize, i64);

/// Puts `m` into a ranking, behind everything that scores at least as high.
pub open spec fn ranked_with(ranking: Seq<Match>, m: Match) -> Seq<Match>
    decreases ranking.len(),
{
    if ranking.len() == 0 || ranking.last().1 >= m.1 {
        ranking.push(m)
    } else {
        ranked_with(ranking.drop_last(), m).push(ranking.last())
    }
}

/// The entries that have a score, highest first; equal scores keep their order.
pub open spec fn ranking(scores: Seq<Option<i64>>) -> Seq<Match>
    decreases scores.len(),
{
    if scores.len() == 0 {
        Seq::empty()
    } else {
        let rest = ranking(scores.drop_last());
        match scores.last() {
            Some(score) => ranked_with(rest, ((scores.len() - 1) as usize, score)),
            None => rest,
        }
    }
}

/// The scores of all entries of a list.
pub open spec fn scores_of(names: Seq<Seq<char>>, pattern: Seq<char>) -> Seq<Option<i64>> {
    names.map_values(|name: Seq<char>| fuzzy_score(name, pattern))
}

/// All entries in their order, each with the score zero.
pub open spec fn unranked(n: nat) -> Seq<Match> {
    Seq::new(n, |i: int| (i as usize, 0i64))
}

/// What is left of a list when `pattern` has been typed: all of it while nothing was typed.
pub open spec fn filtered(names: Seq<Seq<char>>, pattern: Seq<char>) -> Seq<Match> {
    if pattern.len() == 0 {
        unranked(names.len())
    } else {
        ranking(scores_of(names, pattern))
    }
}

fn insert_ranked(ranking: &mut Vec<Match>, m: Match)
    ensures
        final(ranking)@ == ranked_with(old(ranking)@, m),
{
    let ghost before = ranking@;
    let mut at: usize = ranking.len();
    assert(before.take(at as int) =~= before);
    assert(before.skip(at as int) =~= Seq::<Match>::empty());
    while at > 0 && ranking[at - 1].1 < m.1
        invariant
            at <= before.len(),
            ranking@ == before,
            ranked_with(before, m) =~= ranked_with(before.take(at as int), m) + before.skip(
                at as int,
            ),
        decreases at,
    {
        assert(before.take(at as int).drop_last() =~= before.take(at - 1));
        assert(before.skip(at - 1) =~= seq![before[at - 1]] + before.skip(at as int));
        at -= 1;
    }
    assert(ranked_with(before.take(at as int), m) =~= before.take(at as int).push(m));
    ranking.insert(at, m);
    assert(ranking@ =~= ranked_with(before, m));
}

/// Ranks the entries of a list by their scores.
pub fn rank(scores: &Vec<Option<i64>>) -> (ranked: Vec<Match>)
    ensures
        ranked@ == ranking(scores@),
{
    let mut ranked: Vec<Match> = Vec::new();
    let mut i: usize = 0;
    assert(scores@.take(0) =~= Seq::<Option<i64>>::empty());
    while i < scores.len()
        invariant
            i <= scores@.len(),
            ranked@ == ranking(scores@.take(i as int)),
        decreases scores@.len() - i,
    {
        assert(scores@.take(i + 1).drop_last() =~= scores@.take(i as int));
        if let Some(score) = scores[i] {
            insert_ranked(&mut ranked, (i, score));
        }
        i += 1;
    }
    assert(scores@.take(i as int) =~= scores@);
    ranked
}

/// The scores of all names for a pattern.
pub fn score_all(names: &Vec<&str>, pattern: &str) -> (scores: Vec<Option<i64>>)
    ensures
        scores@ == scores_of(names@.map_values(|s: &str| s@), pattern@),
{
    let ghost views = names@.map_values(|s: &str| s@);
    let mut scores: Vec<Option<i64>> = Vec::new();
    let mut i: usize = 0;
    while i < names.len()
        invariant
            i <= names@.len(),
            views == names@.map_values(|s: &str| s@),
            scores@ == scores_of(views, pattern@).take(i as int),
        decreases names@.len() - i,
    {
        scores.push(fuzzy_match(names[i], pattern));
        i += 1;
        assert(scores@ =~= scores_of(views, pattern@).take(i as int));
    }
    assert(scores@ =~= scores_of(views, pattern@));
    scores
}

/// What is left of a list of names when `pattern` has been typed.
pub fn filter_names(names: &Vec<&str>, pattern: &str) -> (left: Vec<Match>)
    ensures
        left@ == filtered(names@.map_values(|s: &str| s@), pattern@),
{
    if pattern.is_empty() {
        let mut all: Vec<Match> = Vec::new();
        let mut i: usize = 0;
        while i < names.len()
            invariant
                i <= names@.len(),
                all@ == unranked(i as nat),
            decreases names@.len() - i,
        {
            all.push((i, 0));
            i += 1;
            assert(all@ =~= unranked(i as nat));
        }
        all
    } else {
        let scores = score_all(names, pattern);
        rank(&scores)
    }
}

/// The scores of entries that have a name and a second text: that of the name, if it matches.
pub open spec fn scores_of_either(
    names: Seq<Seq<char>>,
    others: Seq<Seq<char>>,
    pattern: Seq<char>,
) -> Seq<Option<i64>> {
    Seq::new(
        names.len(),
        |i: int|
            match fuzzy_score(names[i], pattern) {
                Some(score) => Some(score),
                None => fuzzy_score(others[i], pattern),
            },
    )
}

/// What is left of a list when `pattern` has been typed, which may match either text.
pub open spec fn filtered_by_either(
    names: Seq<Seq<char>>,
    others: Seq<Seq<char>>,
    pattern: Seq<char>,
) -> Seq<Match> {
    if pattern.len() == 0 {
        unranked(names.len())
    } else {
        ranking(scores_of_either(names, others, pattern))
    }
}

/// What is left of a list of names, each with a second text, when `pattern` has been typed.
pub fn filter_by_either(names: &Vec<&str>, others: &Vec<&str>, pattern: &str) -> (left: Vec<Match>)
    requires
        names@.len() == others@.len(),
    ensures
        left@ == filtered_by_either(
            names@.map_values(|s: &str| s@),
            others@.map_values(|s: &str| s@),
            pattern@,
        ),
{
    if pattern.is_empty() {
        return filter_names(names, pattern);
    }
    let ghost a = names@.map_values(|s: &str| s@);
    let ghost b = others@.map_values(|s: &str| s@);
    let mut scores: Vec<Option<i64>> = Vec::new();
    let mut i: usize = 0;
    while i < names.len()
        invariant
            i <= names@.len(),
            names@.len() == others@.len(),
            a == names@.map_values(|s: &str| s@),
            b == others@.map_values(|s: &str| s@),
            scores@ == scores_of_either(a, b, pattern@).take(i as int),
        decreases names@.len() - i,
    {
        let score = match fuzzy_match(names[i], pattern) {
            Some(score) => Some(score),
            None => fuzzy_match(others[i], pattern),
        };
        scores.push(score);
        i += 1;
        assert(scores@ =~= scores_of_either(a, b, pattern@).take(i as int));
    }
    assert(scores@ =~= scores_of_either(a, b, pattern@));
    rank(&scores)
}

// ── Laws ───────────────────────────────────────────────────────────

/// Whether `a` comes before `b` in a ranking.
pub open spec fn ranks_before(a: Match, b: Match) -> bool {
    a.1 > b.1 || (a.1 == b.1 && a.0 < b.0)
}

/// What a ranking is: every entry with a score, under its index, once and in order.
pub open spec fn is_ranking(r: Seq<Match>, scores: Seq<Option<i64>>) -> bool {
    &&& forall|i: int| 0 <= i < r.len() ==> 0 <= (#[trigger] r[i]).0 < scores.len()
        && scores[r[i].0 as int] == Some(r[i].1)
    &&& forall|i: int, j: int|
        0 <= i < j < r.len() ==> ranks_before(#[trigger] r[i], #[trigger] r[j])
    &&& forall|k: int|
        0 <= k < scores.len() && (#[trigger] scores[k]) is Some ==> r.contains(
            (k as usize, scores[k]->0),
        )
}

proof fn lemma_ranked_with(r: Seq<Match>, m: Match)
    requires
        forall|i: int, j: int|
            0 <= i < j < r.len() ==> ranks_before(#[trigger] r[i], #[trigger] r[j]),
        forall|i: int| 0 <= i < r.len() ==> (#[trigger] r[i]).0 < m.0,
    ensures
        ({
            let s = ranked_with(r, m);
            &&& s.len() == r.len() + 1
            &&& forall|i: int, j: int|
                0 <= i < j < s.len() ==> ranks_before(#[trigger] s[i], #[trigger] s[j])
            &&& forall|i: int| 0 <= i < s.len() ==> #[trigger] s[i] == m || r.contains(s[i])
            &&& s.contains(m)
            &&& forall|x: Match| r.contains(x) ==> s.contains(x)
        }),
    decreases r.len(),
{
    let s = ranked_with(r, m);
    if r.len() == 0 || r.last().1 >= m.1 {
        assert(s[r.len() as int] == m);
        assert forall|x: Match| r.contains(x) implies s.contains(x) by {
            let i = r.index_of(x);
            assert(s[i] == x);
        }
        assert forall|i: int, j: int| 0 <= i < j < s.len() implies ranks_before(
            #[trigger] s[i],
            #[trigger] s[j],
        ) by {
            if j == r.len() {
                if i < r.len() - 1 {
                    assert(ranks_before(r[i], r[r.len() - 1]));
                }
                assert(r[i].0 < m.0);
            }
        }
    } else {
        let front = r.drop_last();
        let t = ranked_with(front, m);
        assert forall|i: int| 0 <= i < front.len() implies (#[trigger] front[i]).0 < m.0 by {
            assert(r[i].0 < m.0);
        }
        lemma_ranked_with(front, m);
        assert(s == t.push(r.last()));
        assert forall|i: int, j: int| 0 <= i < j < s.len() implies ranks_before(
            #[trigger] s[i],
            #[trigger] s[j],
        ) by {
            if j == t.len() {
                assert(s[i] == t[i]);
                if t[i] != m {
                    let k = front.index_of(t[i]);
                    assert(r[k] == t[i]);
                    assert(ranks_before(r[k], r[r.len() - 1]));
                }
            } else {
                assert(ranks_before(t[i], t[j]));
            }
        }
        assert forall|i: int| 0 <= i < s.len() implies #[trigger] s[i] == m || r.contains(s[i]) by {
            if i == t.len() {
                assert(r[r.len() - 1] == s[i]);
            } else if t[i] != m {
                let k = front.index_of(t[i]);
                assert(r[k] == t[i]);
            }
        }
        assert(s.contains(m)) by {
            let k = t.index_of(m);
            assert(s[k] == m);
        }
        assert forall|x: Match| r.contains(x) implies s.contains(x) by {
            let k = r.index_of(x);
            if k == r.len() - 1 {
                assert(s[t.len() as int] == x);
            } else {
                assert(front[k] == x);
                assert(front.contains(x));
                let l = t.index_of(x);
                assert(s[l] == x);
            }
        }
    }
}

/// Ranking keeps exactly the entries that match, each under its own place in the list, from
/// the highest score to the lowest; entries with equal scores stay in the order of the list.
pub proof fn ranking_is_complete_and_in_order(scores: Seq<Option<i64>>)
    requires
        scores.len() <= usize::MAX,
    ensures
        is_ranking(ranking(scores), scores),
    decreases scores.len(),
{
    if scores.len() > 0 {
        let front = scores.drop_last();
        let r = ranking(front);
        let s = ranking(scores);
        ranking_is_complete_and_in_order(front);
        assert forall|i: int| 0 <= i < r.len() implies 0 <= (#[trigger] r[i]).0 < front.len()
            && scores[r[i].0 as int] == Some(r[i].1) by {
            assert(front[r[i].0 as int] == scores[r[i].0 as int]);
        }
        match scores.last() {
            Some(score) => {
                let m = ((scores.len() - 1) as usize, score);
                lemma_ranked_with(r, m);
                assert forall|i: int| 0 <= i < s.len() implies 0 <= (#[trigger] s[i]).0
                    < scores.len() && scores[s[i].0 as int] == Some(s[i].1) by {
                    if s[i] != m {
                        let k = r.index_of(s[i]);
                        assert(r[k] == s[i]);
                    }
                }
                assert forall|k: int|
                    0 <= k < scores.len() && (#[trigger] scores[k]) is Some implies s.contains(
                    (k as usize, scores[k]->0),
                ) by {
                    if k < front.len() {
                        assert(front[k] == scores[k]);
                        assert(r.contains((k as usize, front[k]->0)));
                    }
                }
            },
            None => {
                assert forall|k: int|
                    0 <= k < scores.len() && (#[trigger] scores[k]) is Some implies s.contains(
                    (k as usize, scores[k]->0),
                ) by {
                    assert(front[k] == scores[k]);
                }
            },
        }
    }
}

/// Every entry of a filtered list is an entry of the list.
pub proof fn lemma_filtered_in_range(names: Seq<Seq<char>>, pattern: Seq<char>)
    requires
        names.len() <= usize::MAX,
    ensures
        forall|i: int|
            0 <= i < filtered(names, pattern).len() ==> (#[trigger] filtered(
                names,
                pattern,
            )[i]).0 < names.len(),
{
    if pattern.len() > 0 {
        ranking_is_complete_and_in_order(scores_of(names, pattern));
    }
}

/// Every entry of a list that is filtered by two texts is an entry of the list.
pub proof fn lemma_filtered_by_either_in_range(
    names: Seq<Seq<char>>,
    others: Seq<Seq<char>>,
    pattern: Seq<char>,
)
    requires
        names.len() <= usize::MAX,
    ensures
        forall|i: int|
            0 <= i < filtered_by_either(names, others, pattern).len() ==> (
            #[trigger] filtered_by_either(names, others, pattern)[i]).0 < names.len(),
{
    if pattern.len() > 0 {
        ranking_is_complete_and_in_order(scores_of_either(names, others, pattern));
    }
}

/// Without a pattern every name is there, in its own order.
pub proof fn nothing_typed_keeps_everything(names: Seq<Seq<char>>, others: Seq<Seq<char>>, i: int)
    requires
        0 <= i < names.len() <= usize::MAX,
    ensures
        filtered(names, Seq::empty()).len() == names.len(),
        filtered(names, Seq::empty())[i].0 == i,
        filtered_by_either(names, others, Seq::empty()).len() == names.len(),
        filtered_by_either(names, others, Seq::empty())[i].0 == i,
{
}

/// With a pattern the names that match are there, each once, the better matches first and equal
/// ones in their own order; and no name is there that does not match.
pub proof fn matches_are_ranked(names: Seq<Seq<char>>, pattern: Seq<char>, i: int, j: int)
    requires
        names.len() <= usize::MAX,
        pattern.len() > 0,
        0 <= i < j < filtered(names, pattern).len(),
    ensures
        ({
            let r = filtered(names, pattern);
            &&& fuzzy_score(names[r[i].0 as int], pattern) == Some(r[i].1)
            &&& r[i].1 > r[j].1 || r[i].1 == r[j].1 && r[i].0 < r[j].0
        }),
{
    ranking_is_complete_and_in_order(scores_of(names, pattern));
    let r = filtered(names, pattern);
    assert(ranks_before(r[i], r[j]));
    assert(scores_of(names, pattern)[r[i].0 as int] == Some(r[i].1));
}

/// Every name that matches is found, by itself or by its other name.
pub proof fn matches_are_found(
    names: Seq<Seq<char>>,
    others: Seq<Seq<char>>,
    pattern: Seq<char>,
    k: int,
)
    requires
        names.len() <= usize::MAX,
        pattern.len() > 0,
        0 <= k < names.len(),
    ensures
        fuzzy_score(names[k], pattern) matches Some(score) ==> filtered(names, pattern).contains(
            (k as usize, score),
        ) && filtered_by_either(names, others, pattern).contains((k as usize, score)),
        fuzzy_score(names[k], pattern) is None ==> (fuzzy_score(others[k], pattern) matches Some(
            score,
        ) ==> filtered_by_either(names, others, pattern).contains((k as usize, score))),
{
    ranking_is_complete_and_in_order(scores_of(names, pattern));
    ranking_is_complete_and_in_order(scores_of_either(names, others, pattern));
    let own = scores_of(names, pattern);
    let either = scores_of_either(names, others, pattern);
    assert(own[k] == fuzzy_score(names[k], pattern));
    if own[k] is Some {
        assert(ranking(own).contains((k as usize, own[k]->0)));
    }
    if either[k] is Some {
        assert(ranking(either).contains((k as usize, either[k]->0)));
    }
}

} // verus!
