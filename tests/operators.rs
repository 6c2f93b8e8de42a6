use tsp_ga::chance::{happens, random_below, Ratio};
use tsp_ga::crossover::{crossover, one_point_cx, one_point_cx_at};
use tsp_ga::error::GaError;
use tsp_ga::evolution::{initial_population, next_generation};
use tsp_ga::fitness::{min_key, tour_edges};
use tsp_ga::mutation::{mutate, swap_at, swap_mut};
use tsp_ga::population::{check_permutation, create_pop, random_order};
use tsp_ga::selection::{tournament_selection, tournament_winner};

fn is_perm(v: &[usize], n: usize) -> bool {
    let mut seen = vec![false; n];
    if v.len() != n {
        return false;
    }
    for &g in v {
        if g >= n || seen[g] {
            return false;
        }
        seen[g] = true;
    }
    true
}

fn ratio(num: u64, den: u64) -> Ratio {
    Ratio::new(num, den).unwrap()
}

fn positions_differing(a: &[usize], b: &[usize]) -> usize {
    a.iter().zip(b.iter()).filter(|(x, y)| x != y).count()
}

#[test]
fn random_order_is_a_permutation() {
    for &n in &[1usize, 5, 50] {
        for _ in 0..20 {
            let r = random_order(n);
            assert!(is_perm(&r, n));
            assert!(check_permutation(&r, n));
        }
    }
    assert!(random_order(0).is_empty());
}

#[test]
fn create_pop_gives_permutations() {
    for &n in &[1usize, 5, 50] {
        let pop = create_pop(7, n).unwrap();
        assert_eq!(pop.len(), 7);
        for ind in &pop {
            assert!(is_perm(ind, n));
        }
    }
}

#[test]
fn create_pop_rejects_empty_input() {
    assert_eq!(create_pop(0, 5), Err(GaError::EmptyInput));
    assert_eq!(create_pop(5, 0), Err(GaError::EmptyInput));
    assert_eq!(initial_population(0, 4), Err(GaError::EmptyInput));
    assert_eq!(initial_population(4, 0), Err(GaError::EmptyInput));
}

#[test]
fn initial_population_is_sorted_descending() {
    let pop = initial_population(30, 6).unwrap();
    assert_eq!(pop.len(), 30);
    for ind in &pop {
        assert!(is_perm(ind, 6));
    }
    for w in pop.windows(2) {
        assert!(w[0] >= w[1]);
    }
}

#[test]
fn check_permutation_cases() {
    assert!(check_permutation(&vec![2, 0, 1], 3));
    assert!(!check_permutation(&vec![2, 0, 0], 3));
    assert!(!check_permutation(&vec![0, 1, 3], 3));
    assert!(!check_permutation(&vec![0, 1], 3));
    assert!(check_permutation(&vec![], 0));
}

#[test]
fn tour_edges_close_from_point_zero() {
    let edges = tour_edges(&vec![2, 3, 1], 4).unwrap();
    assert_eq!(edges, vec![(2, 3), (3, 1), (0, 1)]);
    let edges = tour_edges(&vec![0, 1, 2, 3], 4).unwrap();
    assert_eq!(edges, vec![(0, 1), (1, 2), (2, 3), (0, 3)]);
}

#[test]
fn tour_edges_errors() {
    assert_eq!(tour_edges(&vec![0, 1], 0), Err(GaError::EmptyInput));
    assert_eq!(tour_edges(&vec![0], 3), Err(GaError::InvalidIndividual));
    assert_eq!(tour_edges(&vec![], 3), Err(GaError::InvalidIndividual));
    assert_eq!(tour_edges(&vec![0, 3, 1], 3), Err(GaError::InvalidIndividual));
}

#[test]
fn min_key_of_objectives() {
    let objs: Vec<f64> = vec![3.0, 5.0, 1.0, 7.0];
    let keys: Vec<u64> = objs.iter().map(|o| o.to_bits()).collect();
    assert_eq!(f64::from_bits(min_key(&keys)), 1.0);
    assert_eq!(min_key(&vec![9, 4, 4, 8]), 4);
    assert_eq!(min_key(&vec![5]), 5);
}

#[test]
fn tournament_winner_prefers_fitter_and_first_on_ties() {
    let fits = vec![10, 30, 20, 30];
    assert_eq!(tournament_winner(&fits, 0, 1, 2), 1);
    assert_eq!(tournament_winner(&fits, 2, 0, 0), 2);
    assert_eq!(tournament_winner(&fits, 3, 1, 0), 3);
    assert_eq!(tournament_winner(&fits, 1, 3, 2), 1);
    assert_eq!(tournament_winner(&fits, 0, 0, 0), 0);
}

#[test]
fn tournament_selection_favours_fittest() {
    let n: usize = 10;
    let pop: Vec<Vec<usize>> = (0..n).map(|i| vec![i, i]).collect();
    let mut fits: Vec<u64> = vec![1; n];
    fits[4] = 100;
    let rounds = 2000;
    let mut hits = 0usize;
    for _ in 0..rounds {
        let pool = tournament_selection(&pop, &fits);
        assert_eq!(pool.len(), n);
        hits += pool.iter().filter(|ind| ind[0] == 4).count();
    }
    let freq = hits as f64 / (rounds * n) as f64;
    let expected = 1.0 - (1.0 - 1.0 / n as f64).powi(3);
    assert!((freq - expected).abs() < 0.03, "frequency {}", freq);
}

#[test]
fn one_point_cx_at_splices() {
    let p1 = vec![0, 1, 2, 3];
    let p2 = vec![3, 2, 1, 0];
    assert_eq!(one_point_cx_at(&p1, &p2, 2), (vec![0, 1, 1, 0], vec![3, 2, 2, 3]));
    assert_eq!(one_point_cx_at(&p1, &p2, 0), (p2.clone(), p1.clone()));
    assert_eq!(one_point_cx_at(&p1, &p2, 4), (p1.clone(), p2.clone()));
}

#[test]
fn one_point_cx_takes_each_gene_from_a_parent() {
    let p1 = vec![0, 1, 2, 3, 4];
    let p2 = vec![4, 3, 2, 1, 0];
    for _ in 0..50 {
        let (o1, o2) = one_point_cx(&p1, &p2);
        let k = (0..5).find(|&k| one_point_cx_at(&p1, &p2, k) == (o1.clone(), o2.clone()));
        assert!(k.is_some());
    }
}

#[test]
fn crossover_output_size() {
    for len in 0..8usize {
        let pool: Vec<Vec<usize>> = (0..len).map(|i| vec![i, i + 1, i + 2]).collect();
        let out = crossover(&pool, ratio(7, 10));
        assert_eq!(out.len(), 2 * (len / 2));
    }
}

#[test]
fn crossover_pairs_overlap() {
    let pool: Vec<Vec<usize>> = vec![vec![0, 0, 0], vec![1, 1, 1], vec![2, 2, 2], vec![3, 3, 3]];
    let out = crossover(&pool, ratio(0, 1));
    assert_eq!(out.len(), 4);
    for i in 0..2 {
        for (a, b) in out[2 * i].iter().zip(out[2 * i + 1].iter()) {
            assert!((*a == i && *b == i + 1) || (*a == i + 1 && *b == i));
        }
    }
}

#[test]
fn swap_at_exchanges_two_genes() {
    assert_eq!(swap_at(&vec![5, 6, 7, 8], 1, 3), vec![5, 8, 7, 6]);
    assert_eq!(swap_at(&vec![5, 6], 0, 0), vec![5, 6]);
}

#[test]
fn swap_mut_changes_exactly_two_positions() {
    let ind = vec![0, 1, 2, 3, 4, 5];
    for _ in 0..100 {
        let m = swap_mut(&ind);
        assert_eq!(positions_differing(&ind, &m), 2);
        assert!(is_perm(&m, 6));
    }
    let pair = vec![1, 0];
    assert_eq!(swap_mut(&pair), vec![0, 1]);
}

#[test]
fn mutate_with_probability_zero_copies() {
    let off: Vec<Vec<usize>> = (0..20).map(|_| random_order(8)).collect();
    let out = mutate(&off, ratio(0, 5));
    assert_eq!(out, off);
}

#[test]
fn mutate_with_probability_one_swaps_every_individual() {
    let off: Vec<Vec<usize>> = (0..20).map(|_| random_order(8)).collect();
    let out = mutate(&off, ratio(3, 3));
    assert_eq!(out.len(), off.len());
    for (a, b) in off.iter().zip(out.iter()) {
        assert_eq!(positions_differing(a, b), 2);
    }
}

#[test]
fn ratio_new_checks_bounds() {
    assert!(Ratio::new(1, 0).is_none());
    assert!(Ratio::new(3, 2).is_none());
    let p = Ratio::new(2, 2).unwrap();
    assert_eq!((p.num, p.den), (2, 2));
}

#[test]
fn happens_at_the_extremes() {
    for _ in 0..100 {
        assert!(!happens(ratio(0, 7)));
        assert!(happens(ratio(7, 7)));
    }
}

#[test]
fn random_below_stays_in_range() {
    for n in 1..30usize {
        assert!(random_below(n) < n);
    }
    assert_eq!(random_below(1), 0);
}

#[test]
fn next_generation_keeps_shape_and_sorts() {
    let pop = initial_population(11, 5).unwrap();
    let fits: Vec<u64> = (0..11).collect();
    let next = next_generation(&pop, &fits, ratio(7, 10), ratio(1, 5));
    assert_eq!(next.len(), 10);
    for ind in &next {
        assert_eq!(ind.len(), 5);
        assert!(ind.iter().all(|&g| g < 5));
    }
    for w in next.windows(2) {
        assert!(w[0] <= w[1]);
    }
}

#[test]
fn next_generation_without_mutation_breeds_from_the_pool() {
    let pop: Vec<Vec<usize>> = vec![vec![3, 2, 1, 0]; 6];
    let fits: Vec<u64> = vec![1; 6];
    let next = next_generation(&pop, &fits, ratio(7, 10), ratio(0, 1));
    assert_eq!(next, vec![vec![3, 2, 1, 0]; 6]);
}
