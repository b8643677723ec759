use tumour_nuker::beam_utils::{generate_beam_entries, PatientBox};
use tumour_nuker::ga::{
    best_index, create_initial_population, draw_tournament, pair_parents, selection,
    tournament_winner, Optimizer,
};

#[test]
fn test_selection() {
    let population: Vec<u64> = [20, 10, 50].to_vec();
    let ans = selection(&population, 2);
    assert_eq!(ans.len(), 3);
    for indv in ans {
        assert_ne!(population[indv], 50);
    }
}

#[test]
fn worst_member_is_never_selected() {
    let scores: Vec<u64> = vec![7, 3, 9, 100, 4, 8];
    for tournament_size in 2..=6 {
        for _ in 0..50 {
            for winner in selection(&scores, tournament_size) {
                assert!(winner < scores.len());
                assert_ne!(winner, 3);
            }
        }
    }
}

#[test]
fn full_tournament_selects_the_best() {
    let scores: Vec<u64> = vec![7, 3, 9, 100, 4, 8];
    assert_eq!(selection(&scores, 6), vec![1; 6]);
}

#[test]
fn tournament_of_one_reaches_every_member() {
    let scores: Vec<u64> = vec![5, 1, 9];
    let mut seen = [false; 3];
    for _ in 0..200 {
        for winner in selection(&scores, 1) {
            seen[winner] = true;
        }
    }
    assert_eq!(seen, [true, true, true]);
}

#[test]
fn selection_of_an_empty_population() {
    assert_eq!(selection(&Vec::new(), 0), Vec::<usize>::new());
}

#[test]
fn drawn_candidates_are_distinct() {
    for population_size in 0..8usize {
        for tournament_size in 0..=population_size {
            for _ in 0..20 {
                let candidates = draw_tournament(population_size, tournament_size);
                assert_eq!(candidates.len(), tournament_size);
                let mut seen = vec![false; population_size];
                for candidate in candidates {
                    assert!(candidate < population_size);
                    assert!(!seen[candidate]);
                    seen[candidate] = true;
                }
            }
        }
    }
}

#[test]
fn draws_vary() {
    let mut first = [false; 4];
    for _ in 0..400 {
        first[draw_tournament(4, 2)[0]] = true;
    }
    assert_eq!(first, [true; 4]);
}

#[test]
fn best_is_the_first_minimum() {
    assert_eq!(best_index(&Vec::new()), None);
    assert_eq!(best_index(&vec![20, 10, 50]), Some(1));
    assert_eq!(best_index(&vec![4]), Some(0));
    assert_eq!(best_index(&vec![9, 2, 7, 2, 2]), Some(1));
    assert_eq!(best_index(&vec![u64::MAX, u64::MAX]), Some(0));
    assert_eq!(best_index(&vec![3, 2, 1, 0]), Some(3));
}

#[test]
fn tournament_goes_to_the_lowest_score() {
    let scores: Vec<u64> = vec![20, 10, 50, 10];
    assert_eq!(tournament_winner(&scores, &vec![0, 2]), 0);
    assert_eq!(tournament_winner(&scores, &vec![2, 0]), 0);
    assert_eq!(tournament_winner(&scores, &vec![2]), 2);
    assert_eq!(tournament_winner(&scores, &vec![2, 1, 0]), 1);
    assert_eq!(tournament_winner(&scores, &vec![3, 1]), 3);
    assert_eq!(tournament_winner(&scores, &vec![1, 3]), 1);
    assert_eq!(tournament_winner(&scores, &vec![0, 3, 2, 1]), 3);
}

#[test]
fn parents_are_paired_in_order() {
    assert_eq!(pair_parents(&Vec::new()), Vec::<(usize, usize)>::new());
    assert_eq!(pair_parents(&vec![4]), Vec::<(usize, usize)>::new());
    assert_eq!(pair_parents(&vec![4, 2]), vec![(4, 2)]);
    assert_eq!(pair_parents(&vec![4, 2, 7]), vec![(4, 2)]);
    assert_eq!(pair_parents(&vec![4, 2, 7, 7, 0, 1]), vec![(4, 2), (7, 7), (0, 1)]);
}

#[test]
fn first_population_has_six_beams_each() {
    let patient = PatientBox { x_size: 100, y_size: 50, z_size: 30 };
    let population = create_initial_population(20, &patient);
    assert_eq!(population.len(), 20);
    for beams in &population {
        assert_eq!(*beams, generate_beam_entries(&patient));
        assert_eq!(beams.len(), 6);
    }
    assert!(create_initial_population(0, &patient).is_empty());
}

#[test]
fn run_records_the_best_of_each_generation() {
    let mut run = Optimizer::new(3, 2);
    assert!(!run.is_done());
    assert_eq!(run.best_generation(), None);

    let plan = run.step(&vec![20, 10, 50, 30, 60]);
    assert_eq!(plan.elite, 1);
    assert_eq!(plan.parents.len(), 2);
    for (first, second) in &plan.parents {
        assert!(*first < 5 && *second < 5);
        assert_ne!(*first, 4);
        assert_ne!(*second, 4);
    }
    assert_eq!(run.best_in_gen, vec![10]);
    assert!(!run.is_done());

    let plan = run.step(&vec![10, 8, 31, 8]);
    assert_eq!(plan.elite, 1);
    assert_eq!(plan.parents.len(), 2);
    assert_eq!(run.best_in_gen, vec![10, 8]);
    assert_eq!(run.best_generation(), Some(1));

    let plan = run.step(&vec![8, 9]);
    assert_eq!(plan.elite, 0);
    assert_eq!(plan.parents.len(), 1);
    assert_eq!(run.best_in_gen, vec![10, 8, 8]);
    assert!(run.is_done());
    assert_eq!(run.best_generation(), Some(1));
    assert_eq!(run.generations, 3);
    assert_eq!(run.tournament_size, 2);
}

#[test]
fn run_of_no_generations_is_done_at_once() {
    let run = Optimizer::new(0, 5);
    assert!(run.is_done());
    assert_eq!(run.best_generation(), None);
}

#[test]
fn best_on_record_never_worsens() {
    let generations: Vec<Vec<u64>> =
        vec![vec![90, 40, 70], vec![40, 55, 41], vec![40, 12, 99], vec![12, 30, 80]];
    let mut run = Optimizer::new(generations.len(), 3);
    let mut lowest = u64::MAX;
    for scores in &generations {
        let plan = run.step(scores);
        assert_eq!(scores[plan.elite], *scores.iter().min().unwrap());
        let on_record = run.best_in_gen[run.best_generation().unwrap()];
        assert!(on_record <= lowest);
        lowest = on_record;
    }
    assert_eq!(lowest, 12);
    assert_eq!(run.best_generation(), Some(2));
}
