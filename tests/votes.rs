use pluto::votes::{nth_vote_cost, votes_cost, VOTE_BASE_COST};

#[test]
fn first_vote_costs_base() {
    assert_eq!(nth_vote_cost(1), Ok(VOTE_BASE_COST as i64));
}

#[test]
fn vote_costs_grow_five_percent_rounded_down() {
    let costs: Vec<i64> = (1..=7).map(|n| nth_vote_cost(n).unwrap()).collect();
    assert_eq!(costs, vec![40, 42, 44, 46, 48, 51, 53]);
    for w in costs.windows(2) {
        assert!(w[0] < w[1]);
    }
}

#[test]
fn two_votes_from_zero_cost_82() {
    assert_eq!(votes_cost(1, 2), Ok(82));
}

#[test]
fn vote_purchases_are_additive() {
    let whole = votes_cost(1, 3).unwrap();
    let split = votes_cost(1, 1).unwrap() + votes_cost(2, 2).unwrap();
    assert_eq!(whole, 126);
    assert_eq!(whole, split);
    assert_eq!(votes_cost(5, 10).unwrap(), votes_cost(5, 4).unwrap() + votes_cost(9, 6).unwrap());
}

#[test]
fn zero_votes_cost_nothing() {
    assert_eq!(votes_cost(1, 0), Ok(0));
    assert_eq!(votes_cost(i64::MAX, 0), Ok(0));
}

#[test]
fn vote_cost_limit() {
    assert_eq!(nth_vote_cost(806), Ok(4565052144315912812));
    assert_eq!(nth_vote_cost(807), Err(()));
    assert_eq!(nth_vote_cost(i64::MAX), Err(()));
    assert_eq!(votes_cost(800, 10), Err(()));
    assert_eq!(votes_cost(1_000_000, 1), Err(()));
}
