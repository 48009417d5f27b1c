use secret_santa::solver::{
    check_assignment_validation, check_assignment_with, find_assignment, solve_assignments, SolverConfig, Weight,
    PREV_RELEVANT_EVENTS,
};

fn standard_weights() -> [Weight; 3] {
    SolverConfig::standard().weights
}

fn is_derangement(solution: &[usize]) -> bool {
    let mut sorted = solution.to_vec();
    sorted.sort();
    let expected: Vec<usize> = (0..solution.len()).collect();
    sorted == expected && solution.iter().enumerate().all(|(i, &g)| i != g)
}

#[test]
fn test_check_assignment_validation_derangement() {
    // [0, 1, 2] -> 0 maps to 0 -> Invalid
    let invalid_perm = vec![0, 1, 2];
    let restrictions = vec![[9, 9, 9], [9, 9, 9], [9, 9, 9]]; // Dummy restrictions
    assert!(!check_assignment_validation(
        &invalid_perm,
        &restrictions,
        &standard_weights()
    ));

    // [1, 2, 0] -> 0->1, 1->2, 2->0 -> Valid derangement
    let valid_perm = vec![1, 2, 0];
    assert!(check_assignment_validation(
        &valid_perm,
        &restrictions,
        &standard_weights()
    ));
}

#[test]
fn test_solve_assignments_logic() {
    let num_participants = 5;
    let mut history = vec![[num_participants; PREV_RELEVANT_EVENTS]; num_participants];

    // Let's say user 0 cannot be gifted to user 1
    history[0][0] = 1;

    let solution =
        solve_assignments(num_participants, &history, &SolverConfig::standard()).unwrap();

    assert_eq!(solution.len(), num_participants);
    // Ensure everyone is assigned to someone
    let mut giftees = solution.clone();
    giftees.sort();
    let expected: Vec<usize> = (0..num_participants).collect();
    assert_eq!(giftees, expected);

    // Ensure self-assignment didn't happen
    for (i, &giftee) in solution.iter().enumerate() {
        assert_ne!(i, giftee);
    }

    // Check manually for our restriction
    assert_ne!(
        solution[0], 1,
        "User 0 should not be assigned to User 1 due to history"
    );
}

#[test]
fn weight_is_a_probability() {
    assert!(Weight::new(1, 0).is_none());
    assert!(Weight::new(3, 2).is_none());
    let w = Weight::new(1, 4).unwrap();
    assert_eq!(w.numerator(), 1);
    assert_eq!(w.denominator(), 4);
    assert_eq!(Weight::never().numerator(), 0);
    assert_eq!(Weight::half().numerator(), 1);
    assert_eq!(Weight::half().denominator(), 2);
    assert_eq!(Weight::always().numerator(), Weight::always().denominator());
}

#[test]
fn standard_config_forbids_the_last_two_events() {
    let config = SolverConfig::standard();
    assert_eq!(config.weights[0].numerator(), 0);
    assert_eq!(config.weights[1].numerator(), 0);
    assert_eq!(config.weights[2].numerator(), 1);
    assert_eq!(config.weights[2].denominator(), 2);
    assert_eq!(config.max_attempts, 10000);
}

#[test]
fn hard_repeat_is_always_rejected() {
    let restrictions = vec![[1, 9, 9], [9, 9, 9], [9, 9, 9]];
    for _ in 0..50 {
        assert!(!check_assignment_validation(
            &vec![1, 2, 0],
            &restrictions,
            &standard_weights()
        ));
    }
    let second = vec![[9, 1, 9], [9, 9, 9], [9, 9, 9]];
    assert!(!check_assignment_validation(
        &vec![1, 2, 0],
        &second,
        &standard_weights()
    ));
}

#[test]
fn repeat_of_weight_one_is_always_accepted() {
    let weights = [Weight::never(), Weight::never(), Weight::always()];
    let restrictions = vec![[9, 9, 1], [9, 9, 2], [9, 9, 0]];
    for _ in 0..50 {
        assert!(check_assignment_validation(
            &vec![1, 2, 0],
            &restrictions,
            &weights
        ));
    }
}

#[test]
fn soft_repeat_is_sometimes_accepted_and_sometimes_rejected() {
    let restrictions = vec![[9, 9, 1], [9, 9, 9], [9, 9, 9]];
    let mut accepted = 0;
    let mut rejected = 0;
    for _ in 0..400 {
        if check_assignment_validation(&vec![1, 2, 0], &restrictions, &standard_weights()) {
            accepted += 1;
        } else {
            rejected += 1;
        }
    }
    assert!(accepted > 0);
    assert!(rejected > 0);
}

#[test]
fn three_participants_without_history_get_a_three_cycle() {
    let history = vec![[3; PREV_RELEVANT_EVENTS]; 3];
    for _ in 0..50 {
        let solution = solve_assignments(3, &history, &SolverConfig::standard()).unwrap();
        assert!(solution == vec![1, 2, 0] || solution == vec![2, 0, 1]);
    }
}

#[test]
fn two_participants_with_a_forbidden_pairing_have_no_assignment() {
    let mut history = vec![[2; PREV_RELEVANT_EVENTS]; 2];
    history[0][0] = 1;
    assert_eq!(solve_assignments(2, &history, &SolverConfig::standard()), None);
    assert_eq!(find_assignment(2, &history, &standard_weights()), None);
}

#[test]
fn fewer_than_two_participants_have_no_assignment() {
    let history = vec![[1; PREV_RELEVANT_EVENTS]; 1];
    assert_eq!(solve_assignments(1, &history, &SolverConfig::standard()), None);
    assert_eq!(find_assignment(1, &history, &standard_weights()), None);
    assert_eq!(solve_assignments(0, &vec![], &SolverConfig::standard()), None);
    assert_eq!(find_assignment(0, &vec![], &standard_weights()), Some(vec![]));
}

#[test]
fn two_participants_swap() {
    let history = vec![[2; PREV_RELEVANT_EVENTS]; 2];
    assert_eq!(
        solve_assignments(2, &history, &SolverConfig::standard()),
        Some(vec![1, 0])
    );
}

#[test]
fn search_finds_the_only_assignment_left() {
    // 0 may not give to 1, 1 may not give to 2, 2 may not give to 0.
    let history = vec![[1, 3, 3], [2, 3, 3], [0, 3, 3]];
    assert_eq!(
        find_assignment(3, &history, &standard_weights()),
        Some(vec![2, 0, 1])
    );
    for _ in 0..20 {
        assert_eq!(
            solve_assignments(3, &history, &SolverConfig::standard()),
            Some(vec![2, 0, 1])
        );
    }
}

#[test]
fn search_is_used_when_no_random_candidate_is_tried() {
    let history = vec![[4; PREV_RELEVANT_EVENTS]; 4];
    let config = SolverConfig {
        weights: standard_weights(),
        max_attempts: 0,
    };
    let solution = solve_assignments(4, &history, &config).unwrap();
    assert_eq!(solution, find_assignment(4, &history, &standard_weights()).unwrap());
    assert_eq!(solution, vec![1, 0, 3, 2]);
}

#[test]
fn solutions_vary_from_call_to_call() {
    let history = vec![[8; PREV_RELEVANT_EVENTS]; 8];
    let first = solve_assignments(8, &history, &SolverConfig::standard()).unwrap();
    assert!(is_derangement(&first));
    let mut varied = false;
    for _ in 0..50 {
        let next = solve_assignments(8, &history, &SolverConfig::standard()).unwrap();
        assert!(is_derangement(&next));
        if next != first {
            varied = true;
        }
    }
    assert!(varied);
}

#[test]
fn solutions_respect_every_forbidden_pairing() {
    let n = 6;
    let mut history = vec![[n; PREV_RELEVANT_EVENTS]; n];
    for i in 0..n {
        history[i][0] = (i + 1) % n;
        history[i][1] = (i + 2) % n;
    }
    for _ in 0..30 {
        let solution = solve_assignments(n, &history, &SolverConfig::standard()).unwrap();
        assert!(is_derangement(&solution));
        for i in 0..n {
            assert_ne!(solution[i], history[i][0]);
            assert_ne!(solution[i], history[i][1]);
        }
    }
}

#[test]
fn soft_repeat_is_accepted_exactly_if_its_trial_hit() {
    // Participant 0 repeats the pairing of three events ago; weight one half.
    let restrictions = vec![[9, 9, 1], [9, 9, 9], [9, 9, 9]];
    let candidate = vec![1, 2, 0];
    let miss = vec![[false; 3]; 3];
    let mut hit = miss.clone();
    hit[0][2] = true;
    let mut elsewhere = miss.clone();
    elsewhere[1][2] = true;
    elsewhere[0][0] = true;
    assert!(check_assignment_with(&candidate, &restrictions, &standard_weights(), &hit));
    assert!(!check_assignment_with(&candidate, &restrictions, &standard_weights(), &miss));
    assert!(!check_assignment_with(
        &candidate,
        &restrictions,
        &standard_weights(),
        &elsewhere
    ));
}

#[test]
fn every_soft_repeat_needs_its_own_hit() {
    let restrictions = vec![[9, 9, 1], [9, 9, 2], [9, 9, 9]];
    let candidate = vec![1, 2, 0];
    let all = vec![[true; 3]; 3];
    let mut first_only = vec![[false; 3]; 3];
    first_only[0][2] = true;
    let mut second_only = vec![[false; 3]; 3];
    second_only[1][2] = true;
    assert!(check_assignment_with(&candidate, &restrictions, &standard_weights(), &all));
    assert!(!check_assignment_with(
        &candidate,
        &restrictions,
        &standard_weights(),
        &first_only
    ));
    assert!(!check_assignment_with(
        &candidate,
        &restrictions,
        &standard_weights(),
        &second_only
    ));
}

#[test]
fn hits_do_not_rescue_a_fixed_point_or_a_hard_repeat() {
    let all = vec![[true; 3]; 3];
    let none = vec![[false; 3]; 3];
    let free = vec![[9, 9, 9]; 3];
    assert!(!check_assignment_with(&vec![0, 2, 1], &free, &standard_weights(), &all));
    let hard = vec![[1, 9, 9], [9, 9, 9], [9, 9, 9]];
    assert!(!check_assignment_with(&vec![1, 2, 0], &hard, &standard_weights(), &all));
    let second = vec![[9, 9, 9], [9, 2, 9], [9, 9, 9]];
    assert!(!check_assignment_with(&vec![1, 2, 0], &second, &standard_weights(), &all));
    assert!(check_assignment_with(&vec![1, 2, 0], &free, &standard_weights(), &none));
    let always = [Weight::never(), Weight::never(), Weight::always()];
    let soft = vec![[9, 9, 1], [9, 9, 2], [9, 9, 0]];
    assert!(check_assignment_with(&vec![1, 2, 0], &soft, &always, &none));
    assert!(check_assignment_with(&vec![], &vec![], &standard_weights(), &vec![]));
}
