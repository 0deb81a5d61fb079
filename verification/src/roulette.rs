//! Fitness-proportional selection, the alternative to picking the two
//! fittest: a wheel on which every individual holds a sector as wide as its
//! fitness.

use vstd::prelude::*;

verus! {

/// The width of the first `n` sectors of a wheel on which every entry holds
/// a sector as wide as its score.
pub open spec fn score_sum(entries: Seq<(usize, usize)>, n: int) -> nat
    decreases n,
{
    if n <= 0 {
        0
    } else {
        score_sum(entries, n - 1) + entries[n - 1].1 as nat
    }
}

/// The width of the whole wheel.
pub open spec fn total_score(entries: Seq<(usize, usize)>) -> nat {
    score_sum(entries, entries.len() as int)
}

/// The number `drawn` falls into the sector of entry `k`.
pub open spec fn lands_on(entries: Seq<(usize, usize)>, drawn: nat, k: int) -> bool {
    0 <= k < entries.len() && score_sum(entries, k) <= drawn < score_sum(entries, k + 1)
}

/// The sectors of a wheel lie one behind the other.
pub proof fn lemma_score_sum_grows(entries: Seq<(usize, usize)>, m: int, n: int)
    requires
        m <= n,
    ensures
        score_sum(entries, m) <= score_sum(entries, n),
    decreases n - m,
{
    if m < n {
        lemma_score_sum_grows(entries, m, n - 1);
    }
}

/// A number falls into one sector at most, and into none whose entry has
/// score zero.
pub proof fn lemma_landing_is_unique(entries: Seq<(usize, usize)>, drawn: nat, j: int, k: int)
    requires
        lands_on(entries, drawn, j),
        lands_on(entries, drawn, k),
    ensures
        j == k,
        entries[k].1 > 0,
{
    if j < k {
        lemma_score_sum_grows(entries, j + 1, k);
    }
    if k < j {
        lemma_score_sum_grows(entries, k + 1, j);
    }
}

/// Fitness-proportional choice for a given number: the individual of the
/// entry into whose sector `drawn` falls; the individual of the first entry
/// where `drawn` lies beyond the wheel; nothing where there are no entries.
pub fn roulette_wheel_pick(entries: &[(usize, usize)], drawn: usize) -> (picked: Option<usize>)
    ensures
        entries@.len() == 0 ==> picked is None,
        entries@.len() > 0 && drawn < total_score(entries@) ==> exists|k: int|
            #[trigger] lands_on(entries@, drawn as nat, k) && picked == Some(entries@[k].0),
        entries@.len() > 0 && drawn >= total_score(entries@) ==> picked == Some(entries@[0].0),
{
    if entries.len() == 0 {
        return None;
    }
    let mut rest: usize = drawn;
    let mut k: usize = 0;
    while k < entries.len()
        invariant
            k <= entries@.len(),
            rest + score_sum(entries@, k as int) == drawn,
        decreases entries@.len() - k,
    {
        if rest < entries[k].1 {
            assert(lands_on(entries@, drawn as nat, k as int));
            proof {
                lemma_score_sum_grows(entries@, k + 1, entries@.len() as int);
            }
            return Some(entries[k].0);
        }
        rest -= entries[k].1;
        k += 1;
    }
    Some(entries[0].0)
}

/// The width of the wheel, unless it exceeds `usize::MAX`.
pub fn wheel_width(entries: &[(usize, usize)]) -> (width: Option<usize>)
    ensures
        match width {
            Some(total) => total == total_score(entries@),
            None => total_score(entries@) > usize::MAX,
        },
{
    let mut total: usize = 0;
    let mut k: usize = 0;
    while k < entries.len()
        invariant
            k <= entries@.len(),
            total == score_sum(entries@, k as int),
        decreases entries@.len() - k,
    {
        match total.checked_add(entries[k].1) {
            Some(sum) => {
                total = sum;
            },
            None => {
                proof {
                    lemma_score_sum_grows(entries@, k + 1, entries@.len() as int);
                }
                return None;
            },
        }
        k += 1;
    }
    Some(total)
}

} // verus!
