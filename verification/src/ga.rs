//! The evolutionary search over beam configurations: tournament selection,
//! pairing of parents, elitism and the record of the best candidate of each
//! generation.
//!
//! A candidate is known here by its position in the population and by its
//! score, an integer key that orders as its fitness does: lower is better.

use vstd::prelude::*;
use crate::beam_utils::{entry_placement, generate_beam_entries, EntryPlacement, PatientBox, PatientBoxSide};

verus! {

/// What one generation hands to the next: the parents of each pair of
/// children and the member that is carried over unchanged.
pub struct Reproduction {
    /// For each pair of children, the positions of its two parents in the
    /// evaluated population. The children of pair `i` fill slots `2 * i` and
    /// `2 * i + 1` of the next population.
    pub parents: Vec<(usize, usize)>,
    /// Position of the best member of the evaluated population. It replaces
    /// whatever stands in slot 0 of the next population.
    pub elite: usize,
}

/// Progress of one run of the search: the number of generations to run, the
/// size of a tournament, and the best score of each generation so far.
pub struct Optimizer {
    pub generations: usize,
    pub tournament_size: usize,
    pub best_in_gen: Vec<u64>,
}

/// `best` is the position of the lowest score, and the first one where the
/// lowest score occurs more than once.
pub open spec fn is_best(scores: Seq<u64>, best: int) -> bool {
    &&& 0 <= best < scores.len()
    &&& forall|j: int| 0 <= j < best ==> scores[best] < #[trigger] scores[j]
    &&& forall|j: int| best <= j < scores.len() ==> scores[best] <= #[trigger] scores[j]
}

/// The candidates of a tournament are distinct members of a population of
/// `population_size`.
pub open spec fn is_tournament(candidates: Seq<usize>, population_size: int) -> bool {
    &&& forall|i: int| 0 <= i < candidates.len() ==> #[trigger] candidates[i] < population_size
    &&& forall|i: int, j: int|
        0 <= i < j < candidates.len() ==> #[trigger] candidates[i] != #[trigger] candidates[j]
}

/// The scores of the candidates of a tournament, in the order drawn.
pub open spec fn drawn_scores(scores: Seq<u64>, candidates: Seq<usize>) -> Seq<u64> {
    Seq::new(candidates.len(), |i: int| scores[candidates[i] as int])
}

/// `winner` is the candidate with the lowest score, and the first drawn
/// among those that share it.
pub open spec fn wins(scores: Seq<u64>, candidates: Seq<usize>, winner: usize) -> bool {
    exists|p: int| #[trigger]
        is_best(drawn_scores(scores, candidates), p) && candidates[p] == winner
}

/// Some tournament of `tournament_size` distinct members of the population
/// is won by `winner`.
pub open spec fn can_win(scores: Seq<u64>, tournament_size: int, winner: usize) -> bool {
    exists|candidates: Seq<usize>|
        {
            &&& candidates.len() == tournament_size
            &&& is_tournament(candidates, scores.len() as int)
            &&& #[trigger] wins(scores, candidates, winner)
        }
}

/// The position of the lowest score is unique.
pub proof fn lemma_best_unique(scores: Seq<u64>, a: int, b: int)
    requires
        is_best(scores, a),
        is_best(scores, b),
    ensures
        a == b,
{
    if a < b {
        assert(scores[b] < scores[a]);
        assert(scores[a] <= scores[b]);
    } else if b < a {
        assert(scores[a] < scores[b]);
        assert(scores[b] <= scores[a]);
    }
}

/// Position of the lowest score, the first if there are several; nothing
/// for an empty list.
pub fn best_index(scores: &Vec<u64>) -> (best: Option<usize>)
    ensures
        match best {
            Some(i) => is_best(scores@, i as int),
            None => scores.len() == 0,
        },
{
    if scores.len() == 0 {
        return None;
    }
    let mut best: usize = 0;
    let mut i: usize = 1;
    while i < scores.len()
        invariant
            1 <= i <= scores.len(),
            is_best(scores@.take(i as int), best as int),
        decreases scores.len() - i,
    {
        if scores[best] > scores[i] {
            best = i;
        }
        i += 1;
        assert(is_best(scores@.take(i as int), best as int)) by {
            assert(forall|j: int| 0 <= j < i - 1 ==> scores@.take(i - 1)[j] == scores@.take(i as int)[j]);
        }
    }
    assert(scores@.take(i as int) =~= scores@);
    Some(best)
}

/// Decides a tournament: of the candidates, the one with the lowest score
/// wins, and the first drawn among those that share it.
pub fn tournament_winner(scores: &Vec<u64>, candidates: &Vec<usize>) -> (winner: usize)
    requires
        candidates.len() > 0,
        forall|i: int| 0 <= i < candidates.len() ==> #[trigger] candidates[i] < scores.len(),
    ensures
        wins(scores@, candidates@, winner),
{
    let ghost drawn = drawn_scores(scores@, candidates@);
    let mut place: usize = 0;
    let mut i: usize = 1;
    while i < candidates.len()
        invariant
            1 <= i <= candidates.len(),
            drawn == drawn_scores(scores@, candidates@),
            forall|k: int| 0 <= k < candidates.len() ==> #[trigger] candidates[k] < scores.len(),
            is_best(drawn.take(i as int), place as int),
        decreases candidates.len() - i,
    {
        if scores[candidates[place]] > scores[candidates[i]] {
            place = i;
        }
        i += 1;
        assert(is_best(drawn.take(i as int), place as int)) by {
            assert(forall|j: int| 0 <= j < i - 1 ==> drawn.take(i - 1)[j] == drawn.take(i as int)[j]);
        }
    }
    assert(drawn.take(i as int) =~= drawn);
    candidates[place]
}

/// Draws one index from `low..high` by `rand::Rng::random_range` on the
/// thread-local generator that `rand::rng` hands out. The range must not be
/// empty, since the generator panics on an empty one. Of the outcome only
/// this is claimed: it lies in the range.
#[verifier::external_body]
fn random_index(low: usize, high: usize) -> (index: usize)
    requires
        low < high,
    ensures
        low <= index < high,
{
    rand::Rng::random_range(&mut rand::rng(), low..high)
}

/// Draws the candidates of one tournament: `tournament_size` distinct
/// members of the population, at random and without replacement.
pub fn draw_tournament(population_size: usize, tournament_size: usize) -> (candidates: Vec<usize>)
    requires
        tournament_size <= population_size,
    ensures
        candidates.len() == tournament_size,
        is_tournament(candidates@, population_size as int),
{
    let mut pool: Vec<usize> = Vec::new();
    let mut n: usize = 0;
    while n < population_size
        invariant
            n <= population_size,
            pool.len() == n,
            forall|i: int| 0 <= i < n ==> #[trigger] pool[i] == i,
        decreases population_size - n,
    {
        pool.push(n);
        n += 1;
    }
    let mut i: usize = 0;
    while i < tournament_size
        invariant
            i <= tournament_size <= population_size,
            pool.len() == population_size,
            is_tournament(pool@, population_size as int),
        decreases tournament_size - i,
    {
        let j = random_index(i, population_size);
        let first = pool[i];
        let second = pool[j];
        let ghost before = pool@;
        pool.set(i, second);
        pool.set(j, first);
        assert(is_tournament(pool@, population_size as int)) by {
            assert forall|p: int, q: int| 0 <= p < q < pool.len() implies #[trigger] pool[p]
                != #[trigger] pool[q] by {
                let from_p = if p == i { j as int } else if p == j { i as int } else { p };
                let from_q = if q == i { j as int } else if q == j { i as int } else { q };
                assert(pool[p] == before[from_p]);
                assert(pool[q] == before[from_q]);
                assert(from_p != from_q);
            }
        }
        i += 1;
    }
    pool.truncate(tournament_size);
    pool
}

/// Tournament selection: as many tournaments as the population has members,
/// each among `tournament_size` distinct members drawn at random. The
/// result lists the winners by their position in the population.
pub fn selection(scores: &Vec<u64>, tournament_size: usize) -> (selected: Vec<usize>)
    requires
        tournament_size <= scores.len(),
        scores.len() > 0 ==> tournament_size > 0,
    ensures
        selected.len() == scores.len(),
        forall|i: int|
            0 <= i < selected.len() ==> can_win(scores@, tournament_size as int, #[trigger] selected[i]),
{
    let mut selected: Vec<usize> = Vec::new();
    let mut count: usize = 0;
    while count < scores.len()
        invariant
            count <= scores.len(),
            tournament_size <= scores.len(),
            scores.len() > 0 ==> tournament_size > 0,
            selected.len() == count,
            forall|i: int|
                0 <= i < selected.len() ==> can_win(
                    scores@,
                    tournament_size as int,
                    #[trigger] selected[i],
                ),
        decreases scores.len() - count,
    {
        let candidates = draw_tournament(scores.len(), tournament_size);
        let winner = tournament_winner(scores, &candidates);
        selected.push(winner);
        count += 1;
    }
    selected
}

/// Pairs the selected parents two at a time, in order. A parent left over at
/// the end of an odd-sized pool is dropped.
pub fn pair_parents(selected: &Vec<usize>) -> (pairs: Vec<(usize, usize)>)
    ensures
        pairs.len() == selected.len() / 2,
        forall|i: int|
            0 <= i < pairs.len() ==> #[trigger] pairs[i] == (selected[2 * i], selected[2 * i + 1]),
{
    let mut pairs: Vec<(usize, usize)> = Vec::new();
    let mut idx: usize = 0;
    while idx < selected.len() && selected.len() - idx >= 2
        invariant
            idx <= selected.len(),
            idx == 2 * pairs.len(),
            forall|i: int|
                0 <= i < pairs.len() ==> #[trigger] pairs[i] == (
                    selected[2 * i],
                    selected[2 * i + 1],
                ),
        decreases selected.len() - idx,
    {
        pairs.push((selected[idx], selected[idx + 1]));
        idx += 2;
    }
    pairs
}

/// The beam layout of every member of a first population: each member gets
/// one entry placement per face of the patient box.
pub fn create_initial_population(pop_size: usize, patient_box: &PatientBox) -> (population: Vec<
    Vec<EntryPlacement>,
>)
    ensures
        population.len() == pop_size,
        forall|i: int|
            0 <= i < population.len() ==> (#[trigger] population[i])@
                == PatientBoxSide::all_faces().map_values(
                |face: PatientBoxSide| entry_placement(face, *patient_box),
            ),
{
    let mut population: Vec<Vec<EntryPlacement>> = Vec::new();
    let mut n: usize = 0;
    while n < pop_size
        invariant
            n <= pop_size,
            population.len() == n,
            forall|i: int|
                0 <= i < population.len() ==> (#[trigger] population[i])@
                    == PatientBoxSide::all_faces().map_values(
                    |face: PatientBoxSide| entry_placement(face, *patient_box),
                ),
        decreases pop_size - n,
    {
        population.push(generate_beam_entries(patient_box));
        n += 1;
    }
    population
}

impl Optimizer {
    /// Every generation run so far has left its best score, and no more
    /// generations were run than asked for.
    pub open spec fn wf(&self) -> bool {
        self.best_in_gen.len() <= self.generations
    }

    /// The run is over: every generation has been recorded.
    pub open spec fn finished(&self) -> bool {
        self.best_in_gen.len() >= self.generations
    }

    /// A run that has recorded no generation yet.
    pub fn new(generations: usize, tournament_size: usize) -> (run: Optimizer)
        ensures
            run.generations == generations,
            run.tournament_size == tournament_size,
            run.best_in_gen@ == Seq::<u64>::empty(),
            run.wf(),
    {
        Optimizer { generations, tournament_size, best_in_gen: Vec::new() }
    }

    /// Whether every generation has been recorded.
    pub fn is_done(&self) -> (done: bool)
        ensures
            done == self.finished(),
    {
        self.best_in_gen.len() >= self.generations
    }

    /// Takes an evaluated population through one generation. The scores of
    /// its members come in; what goes out is the plan for the next
    /// population: parents chosen by tournament and paired in order, and
    /// the best member as the elite. The best score is added to the record,
    /// so the lowest score on record never rises.
    pub fn step(&mut self, scores: &Vec<u64>) -> (plan: Reproduction)
        requires
            old(self).wf(),
            !old(self).finished(),
            scores.len() >= 2,
            0 < old(self).tournament_size <= scores.len(),
        ensures
            final(self).generations == old(self).generations,
            final(self).tournament_size == old(self).tournament_size,
            final(self).wf(),
            is_best(scores@, plan.elite as int),
            final(self).best_in_gen@ == old(self).best_in_gen@.push(scores[plan.elite as int]),
            forall|a: int, b: int|
                #![trigger is_best(old(self).best_in_gen@, a), is_best(final(self).best_in_gen@, b)]
                is_best(old(self).best_in_gen@, a) && is_best(final(self).best_in_gen@, b)
                    ==> final(self).best_in_gen[b] <= old(self).best_in_gen[a],
            plan.parents.len() == scores.len() / 2,
            forall|i: int|
                0 <= i < plan.parents.len() ==> {
                    &&& can_win(scores@, old(self).tournament_size as int, (#[trigger] plan.parents[i]).0)
                    &&& can_win(scores@, old(self).tournament_size as int, plan.parents[i].1)
                },
    {
        let selected = selection(scores, self.tournament_size);
        let parents = pair_parents(&selected);
        let elite = match best_index(scores) {
            Some(i) => i,
            None => 0,
        };
        self.best_in_gen.push(scores[elite]);
        proof {
            let before = old(self).best_in_gen@;
            let after = self.best_in_gen@;
            assert forall|a: int, b: int|
                is_best(before, a) && is_best(after, b) implies after[b] <= before[a] by {
                assert(after.take(before.len() as int) =~= before);
                assert(after.take(after.len() as int) =~= after);
                lemma_best_ever_non_increasing(after, before.len() as int, after.len() as int, a, b);
            }
        }
        Reproduction { parents, elite }
    }

    /// The generation whose best score is the lowest on record, the earliest
    /// if several share it; nothing before the first generation.
    pub fn best_generation(&self) -> (best: Option<usize>)
        ensures
            match best {
                Some(g) => is_best(self.best_in_gen@, g as int),
                None => self.best_in_gen.len() == 0,
            },
    {
        best_index(&self.best_in_gen)
    }
}

/// A member that scores strictly worse than every other member never wins a
/// tournament of two or more.
pub proof fn lemma_worst_never_selected(scores: Seq<u64>, tournament_size: int, worst: usize)
    requires
        tournament_size >= 2,
        worst < scores.len(),
        forall|j: int| 0 <= j < scores.len() && j != worst ==> #[trigger] scores[j] < scores[worst as int],
    ensures
        !can_win(scores, tournament_size, worst),
{
    if can_win(scores, tournament_size, worst) {
        let candidates = choose|candidates: Seq<usize>|
            {
                &&& candidates.len() == tournament_size
                &&& is_tournament(candidates, scores.len() as int)
                &&& #[trigger] wins(scores, candidates, worst)
            };
        let drawn = drawn_scores(scores, candidates);
        let p = choose|p: int| #[trigger] is_best(drawn, p) && candidates[p] == worst;
        let q: int = if p == 0 { 1 } else { 0 };
        assert(candidates[q] != candidates[p]);
        assert(candidates[q] < scores.len());
        assert(scores[candidates[q] as int] < scores[worst as int]);
        assert(drawn[q] == scores[candidates[q] as int]);
        assert(drawn[p] == scores[worst as int]);
        assert(drawn[p] <= drawn[q]);
    }
}

/// The best score on record never gets worse: the lowest of the first
/// `later` generations is no higher than the lowest of the first `earlier`.
pub proof fn lemma_best_ever_non_increasing(
    history: Seq<u64>,
    earlier: int,
    later: int,
    a: int,
    b: int,
)
    requires
        0 <= earlier <= later <= history.len(),
        is_best(history.take(earlier), a),
        is_best(history.take(later), b),
    ensures
        history[b] <= history[a],
{
    let short = history.take(earlier);
    let long = history.take(later);
    assert(long[a] == history[a]);
    assert(long[b] == history[b]);
    if a < b {
        assert(long[b] < long[a]);
    } else {
        assert(long[b] <= long[a]);
    }
}

/// Elitism: if the elite of one generation keeps its score in slot 0 of the
/// next, the best score of the next generation is no worse.
pub proof fn lemma_elitism_keeps_best(previous: Seq<u64>, next: Seq<u64>, elite: int, best: int)
    requires
        is_best(previous, elite),
        next.len() > 0,
        next[0] == previous[elite],
        is_best(next, best),
    ensures
        next[best] <= previous[elite],
{
    assert(next[best] <= next[0]);
}

} // verus!
