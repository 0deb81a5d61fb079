//! Selection: ranking a population by fitness and naming the two parents of
//! the next generation.

use vstd::prelude::*;
use crate::genome::{count_set_genes, count_true, population_genes, Genome};

verus! {

/// The score of every individual of a population: its number of set genes.
pub open spec fn scores_of(population: Seq<Seq<bool>>) -> Seq<nat> {
    Seq::new(population.len(), |i: int| count_true(population[i]))
}

/// Individual `i` ranks before individual `j`: it has the higher score, or
/// the same score and the lower index.
pub open spec fn outranks(scores: Seq<nat>, i: int, j: int) -> bool {
    scores[i] > scores[j] || (scores[i] == scores[j] && i < j)
}

/// Individual `i` ranks before every other individual.
pub open spec fn is_fittest(scores: Seq<nat>, i: int) -> bool {
    &&& 0 <= i < scores.len()
    &&& forall|j: int| 0 <= j < scores.len() && j != i ==> outranks(scores, i, j)
}

/// Individual `i` ranks before every other individual but `best`.
pub open spec fn is_runner_up(scores: Seq<nat>, best: int, i: int) -> bool {
    &&& 0 <= i < scores.len()
    &&& i != best
    &&& forall|j: int| 0 <= j < scores.len() && j != best && j != i ==> outranks(scores, i, j)
}

/// The individual that ranks first.
pub open spec fn fittest(scores: Seq<nat>) -> int {
    choose|i: int| is_fittest(scores, i)
}

/// The individual that ranks second.
pub open spec fn runner_up(scores: Seq<nat>) -> int {
    choose|i: int| is_runner_up(scores, fittest(scores), i)
}

/// Individual `i` is listed in a ranking.
pub open spec fn lists(ranking: Seq<(usize, usize)>, i: int) -> bool {
    exists|k: int| 0 <= k < ranking.len() && (#[trigger] ranking[k]).0 == i
}

/// `ranking` lists every individual once, paired with its score, in
/// descending order of score; individuals of equal score keep the order of
/// their indices.
pub open spec fn is_ranking(ranking: Seq<(usize, usize)>, scores: Seq<nat>) -> bool {
    &&& ranking.len() == scores.len()
    &&& forall|k: int|
        0 <= k < ranking.len() ==> (#[trigger] ranking[k]).0 < scores.len() && ranking[k].1
            == scores[ranking[k].0 as int]
    &&& forall|i: int| 0 <= i < scores.len() ==> #[trigger] lists(ranking, i)
    &&& forall|j: int, k: int|
        0 <= j < k < ranking.len() ==> outranks(
            scores,
            (#[trigger] ranking[j]).0 as int,
            (#[trigger] ranking[k]).0 as int,
        )
}

/// Ranks a population by fitness, fittest first.
pub fn rank(population: &Vec<Genome>) -> (ranking: Vec<(usize, usize)>)
    ensures
        is_ranking(ranking@, scores_of(population_genes(population@))),
{
    let ghost scores = scores_of(population_genes(population@));
    let mut ranking: Vec<(usize, usize)> = Vec::new();
    let mut i: usize = 0;
    while i < population.len()
        invariant
            i <= population.len(),
            scores == scores_of(population_genes(population@)),
            is_ranking(ranking@, scores.take(i as int)),
        decreases population.len() - i,
    {
        let score: usize = count_set_genes(&population[i]);
        let mut at: usize = 0;
        while at < ranking.len() && ranking[at].1 >= score
            invariant
                at <= ranking.len(),
                forall|k: int| 0 <= k < at ==> (#[trigger] ranking[k]).1 >= score,
            decreases ranking.len() - at,
        {
            at += 1;
        }
        proof {
            lemma_ranking_insert(ranking@, scores, i as int, at as int);
        }
        ranking.insert(at, (i, score));
        i += 1;
    }
    ranking
}

/// Listing a new individual, whose index is above all those listed, behind
/// the entries that score at least as much and before those that score less
/// gives the ranking of the population grown by that individual.
proof fn lemma_ranking_insert(ranking: Seq<(usize, usize)>, scores: Seq<nat>, i: int, at: int)
    requires
        0 <= i < scores.len(),
        i <= usize::MAX,
        scores[i] <= usize::MAX,
        is_ranking(ranking, scores.take(i)),
        0 <= at <= ranking.len(),
        forall|k: int| 0 <= k < at ==> (#[trigger] ranking[k]).1 >= scores[i],
        at < ranking.len() ==> ranking[at].1 < scores[i],
    ensures
        is_ranking(ranking.insert(at, (i as usize, scores[i] as usize)), scores.take(i + 1)),
{
    let grown = ranking.insert(at, (i as usize, scores[i] as usize));
    assert forall|m: int| 0 <= m < i + 1 implies #[trigger] lists(grown, m) by {
        if m < i {
            assert(lists(ranking, m));
            let k = choose|k: int| 0 <= k < ranking.len() && (#[trigger] ranking[k]).0 == m;
            assert(grown[if k < at { k } else { k + 1 }] == ranking[k]);
        } else {
            assert(grown[at].0 == i);
        }
    }
}

/// Individual `i` is one of the first `n` and is not `skip`.
spec fn competes(n: int, skip: int, i: int) -> bool {
    0 <= i < n && i != skip
}

/// Among the first `n` individuals other than `skip`, `i` ranks before
/// every other.
spec fn leads(scores: Seq<nat>, n: int, skip: int, i: int) -> bool {
    &&& 0 <= i < n
    &&& i != skip
    &&& forall|j: int| 0 <= j < n && j != skip && j != i ==> outranks(scores, i, j)
}

/// Wherever the first `n` individuals hold one other than `skip`, one of
/// them ranks before every other.
proof fn lemma_leader_exists(scores: Seq<nat>, n: int, skip: int) -> (leader: int)
    requires
        n <= scores.len(),
        exists|i: int| competes(n, skip, i),
    ensures
        leads(scores, n, skip, leader),
    decreases n,
{
    let last = n - 1;
    if exists|i: int| competes(last, skip, i) {
        let previous = lemma_leader_exists(scores, last, skip);
        if last != skip && scores[last] > scores[previous] {
            assert forall|j: int| 0 <= j < n && j != skip && j != last implies outranks(
                scores,
                last,
                j,
            ) by {
                if j != previous {
                    assert(outranks(scores, previous, j));
                }
            }
            last
        } else {
            previous
        }
    } else {
        let only = choose|i: int| competes(n, skip, i);
        assert(!competes(last, skip, only));
        assert forall|j: int| 0 <= j < n && j != skip && j != last implies outranks(
            scores,
            last,
            j,
        ) by {
            assert(!competes(last, skip, j));
        }
        last
    }
}

/// Only one individual can be the fittest.
pub proof fn lemma_fittest_is_unique(scores: Seq<nat>, i: int)
    requires
        is_fittest(scores, i),
    ensures
        fittest(scores) == i,
{
    let chosen = fittest(scores);
    if chosen != i {
        assert(outranks(scores, chosen, i));
        assert(outranks(scores, i, chosen));
    }
}

/// Only one individual can be the runner-up.
pub proof fn lemma_runner_up_is_unique(scores: Seq<nat>, i: int)
    requires
        is_runner_up(scores, fittest(scores), i),
    ensures
        runner_up(scores) == i,
{
    let chosen = runner_up(scores);
    if chosen != i {
        assert(outranks(scores, chosen, i));
        assert(outranks(scores, i, chosen));
    }
}

/// A population that is not empty has a fittest individual.
pub proof fn lemma_fittest_exists(scores: Seq<nat>)
    requires
        scores.len() >= 1,
    ensures
        is_fittest(scores, fittest(scores)),
{
    assert(competes(scores.len() as int, -1, 0));
    let leader = lemma_leader_exists(scores, scores.len() as int, -1);
    assert(is_fittest(scores, leader));
}

/// A population of two or more has a runner-up, distinct from the fittest.
pub proof fn lemma_runner_up_exists(scores: Seq<nat>)
    requires
        scores.len() >= 2,
    ensures
        is_fittest(scores, fittest(scores)),
        is_runner_up(scores, fittest(scores), runner_up(scores)),
{
    lemma_fittest_exists(scores);
    let best = fittest(scores);
    let other = if best == 0 { 1int } else { 0int };
    assert(competes(scores.len() as int, best, other));
    let leader = lemma_leader_exists(scores, scores.len() as int, best);
    assert(is_runner_up(scores, best, leader));
}

/// Elitism: no individual scores more than the fittest, and none but the
/// fittest scores more than the runner-up.
pub proof fn lemma_parents_are_elite(scores: Seq<nat>, j: int)
    requires
        scores.len() >= 2,
        0 <= j < scores.len(),
    ensures
        scores[j] <= scores[fittest(scores)],
        j != fittest(scores) ==> scores[j] <= scores[runner_up(scores)],
{
    lemma_runner_up_exists(scores);
    let best = fittest(scores);
    let second = runner_up(scores);
    if j != best {
        assert(outranks(scores, best, j));
        if j != second {
            assert(outranks(scores, second, j));
        }
    }
}

/// A ranking starts with the fittest individual, followed by the runner-up.
pub proof fn lemma_ranking_heads(ranking: Seq<(usize, usize)>, scores: Seq<nat>)
    requires
        is_ranking(ranking, scores),
        scores.len() >= 2,
    ensures
        ranking[0].0 == fittest(scores),
        ranking[1].0 == runner_up(scores),
{
    let best = ranking[0].0 as int;
    let second = ranking[1].0 as int;
    assert forall|j: int| 0 <= j < scores.len() && j != best implies outranks(scores, best, j) by {
        assert(lists(ranking, j));
    }
    lemma_fittest_is_unique(scores, best);
    assert forall|j: int| 0 <= j < scores.len() && j != best && j != second implies outranks(
        scores,
        second,
        j,
    ) by {
        assert(lists(ranking, j));
    }
    lemma_runner_up_is_unique(scores, second);
}

/// Two rankings of the same scores agree on their first `n` entries.
proof fn lemma_rankings_agree(
    first: Seq<(usize, usize)>,
    second: Seq<(usize, usize)>,
    scores: Seq<nat>,
    n: int,
)
    requires
        is_ranking(first, scores),
        is_ranking(second, scores),
        0 <= n <= scores.len(),
    ensures
        forall|k: int| 0 <= k < n ==> first[k] == second[k],
    decreases n,
{
    if n > 0 {
        let at = n - 1;
        lemma_rankings_agree(first, second, scores, at);
        assert(lists(second, first[at].0 as int));
        assert(lists(first, second[at].0 as int));
    }
}

/// A population has one ranking only.
pub proof fn lemma_ranking_is_unique(
    first: Seq<(usize, usize)>,
    second: Seq<(usize, usize)>,
    scores: Seq<nat>,
)
    requires
        is_ranking(first, scores),
        is_ranking(second, scores),
    ensures
        first == second,
{
    lemma_rankings_agree(first, second, scores, scores.len() as int);
}

} // verus!
