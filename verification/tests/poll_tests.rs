use poll_backend::errors::ApiError;
use poll_backend::poll::{
    cast_vote, compute_stats, new_poll, poll_or_not_found, resolve_update, validate_vote_index,
    Poll,
};

fn color_poll() -> Poll {
    new_poll(
        1,
        "Color".to_string(),
        vec!["Red".to_string(), "Blue".to_string()],
        "2024-01-01".to_string(),
    )
    .expect("two options are enough")
}

#[test]
fn new_poll_starts_with_zero_votes() {
    let p = color_poll();
    assert_eq!(p.votes, vec![0, 0]);
    assert_eq!(p.title, "Color");
}

#[test]
fn new_poll_rejects_fewer_than_two_options() {
    let r = new_poll(1, "t".to_string(), vec!["only".to_string()], String::new());
    assert_eq!(r.err(), Some(ApiError::InvalidArgument));
    let r = new_poll(1, "t".to_string(), vec![], String::new());
    assert_eq!(r.err(), Some(ApiError::InvalidArgument));
}

#[test]
fn vote_scenario_color_poll() {
    let mut p = color_poll();
    assert_eq!(p.votes, vec![0, 0]);
    cast_vote(&mut p, 1).expect("index 1 is in range");
    assert_eq!(p.votes, vec![0, 1]);
    let stats = compute_stats(&p);
    assert_eq!(stats.len(), 2);
    assert_eq!(stats[0].option, "Red");
    assert_eq!(stats[0].votes, 0);
    assert_eq!(stats[0].percent_hundredths, 0);
    assert_eq!(stats[1].option, "Blue");
    assert_eq!(stats[1].votes, 1);
    assert_eq!(stats[1].percent_hundredths, 10000);
    assert_eq!(stats[0].percent_hundredths as f64 / 100.0, 0.0);
    assert_eq!(stats[1].percent_hundredths as f64 / 100.0, 100.0);
}

#[test]
fn cast_vote_increments_only_the_chosen_counter() {
    let mut p = Poll {
        id: 7,
        title: "t".to_string(),
        options: vec!["a".to_string(), "b".to_string(), "c".to_string()],
        votes: vec![5, 7, 9],
        created_at: String::new(),
    };
    cast_vote(&mut p, 1).expect("in range");
    assert_eq!(p.votes, vec![5, 8, 9]);
}

#[test]
fn cast_vote_out_of_range_changes_nothing() {
    let mut p = color_poll();
    cast_vote(&mut p, 0).expect("in range");
    let before = p.votes.clone();
    assert_eq!(cast_vote(&mut p, -1), Err(ApiError::InvalidArgument));
    assert_eq!(p.votes, before);
    assert_eq!(cast_vote(&mut p, 2), Err(ApiError::InvalidArgument));
    assert_eq!(p.votes, before);
}

#[test]
fn cast_vote_on_saturated_counter_is_storage_error() {
    let mut p = Poll {
        id: 1,
        title: "t".to_string(),
        options: vec!["a".to_string(), "b".to_string()],
        votes: vec![i32::MAX, 3],
        created_at: String::new(),
    };
    assert_eq!(cast_vote(&mut p, 0), Err(ApiError::StorageError));
    assert_eq!(p.votes, vec![i32::MAX, 3]);
}

#[test]
fn validate_vote_index_matches_the_option_range() {
    let p = color_poll();
    assert_eq!(validate_vote_index(&p, 0), Ok(()));
    assert_eq!(validate_vote_index(&p, 1), Ok(()));
    assert_eq!(validate_vote_index(&p, -1), Err(ApiError::InvalidArgument));
    assert_eq!(validate_vote_index(&p, 2), Err(ApiError::InvalidArgument));
}

#[test]
fn stats_are_all_zero_without_ballots() {
    let p = color_poll();
    let stats = compute_stats(&p);
    assert!(stats.iter().all(|s| s.percent_hundredths == 0));
    assert!(stats.iter().all(|s| s.votes == 0));
}

#[test]
fn stats_percentages_sum_to_one_hundred_within_epsilon() {
    let mut p = Poll {
        id: 1,
        title: "t".to_string(),
        options: vec!["a".to_string(), "b".to_string(), "c".to_string()],
        votes: vec![1, 1, 1],
        created_at: String::new(),
    };
    let stats = compute_stats(&p);
    let sum: f64 = stats.iter().map(|s| s.percent_hundredths as f64 / 100.0).sum();
    assert!((sum - 100.0).abs() <= 0.01 * stats.len() as f64);

    p.votes = vec![2, 3, 5];
    let stats = compute_stats(&p);
    assert_eq!(stats[0].percent_hundredths, 2000);
    assert_eq!(stats[1].percent_hundredths, 3000);
    assert_eq!(stats[2].percent_hundredths, 5000);
    let sum: f64 = stats.iter().map(|s| s.percent_hundredths as f64 / 100.0).sum();
    assert!((sum - 100.0).abs() <= 0.01 * stats.len() as f64);
}

#[test]
fn missing_poll_is_not_found() {
    assert_eq!(poll_or_not_found(None).err(), Some(ApiError::NotFound));
    let p = poll_or_not_found(Some(color_poll())).expect("present");
    assert_eq!(p.id, 1);
}

#[test]
fn update_with_unchanged_options_keeps_votes() {
    let current = vec!["Red".to_string(), "Blue".to_string()];
    let new = vec!["Red".to_string(), "Blue".to_string()];
    let r = resolve_update(&current, vec![4, 2], &new).expect("unchanged options are fine");
    assert_eq!(r, vec![4, 2]);
}

#[test]
fn update_with_changed_options_resets_votes() {
    let current = vec!["Red".to_string(), "Blue".to_string()];
    let new = vec!["Red".to_string(), "Green".to_string(), "Blue".to_string()];
    let r = resolve_update(&current, vec![4, 2], &new).expect("three options are fine");
    assert_eq!(r, vec![0, 0, 0]);
}

#[test]
fn update_that_shrinks_below_two_options_is_rejected() {
    let current = vec!["Red".to_string(), "Blue".to_string()];
    let new = vec!["Red".to_string()];
    let r = resolve_update(&current, vec![4, 2], &new);
    assert_eq!(r, Err(ApiError::InvalidArgument));
}
