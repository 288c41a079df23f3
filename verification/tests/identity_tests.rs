use queue_calling_system::identity::{
    generate_unique_user_agent, judge_candidate, take_candidate, IdentitySet, Verdict,
    MAX_UA_GENERATION_ATTEMPTS,
};

fn set_of(items: &[&str]) -> IdentitySet {
    let mut set = IdentitySet::new();
    for item in items {
        set.insert(item.to_string());
    }
    set
}

#[test]
fn identity_set_holds_each_string_once() {
    let mut set = IdentitySet::new();
    assert_eq!(set.len(), 0);
    assert!(set.insert("one".to_string()));
    assert!(set.insert("two".to_string()));
    assert!(!set.insert("one".to_string()));
    assert_eq!(set.len(), 2);
    assert!(set.contains("one"));
    assert!(set.contains("two"));
    assert!(!set.contains("three"));
    assert!(!set.contains(""));
    assert_eq!(set.to_vec(), vec!["one".to_string(), "two".to_string()]);
    let copy = set.clone();
    assert_eq!(copy.to_vec(), set.to_vec());
}

#[test]
fn fresh_candidate_is_taken_at_once() {
    let job = set_of(&["a"]);
    let history = set_of(&["b"]);
    assert_eq!(judge_candidate("c", &job, &history, 0), Verdict::Fresh);
    assert_eq!(judge_candidate("c", &job, &history, 9), Verdict::Fresh);
}

#[test]
fn used_candidate_is_drawn_again_until_the_attempts_run_out() {
    let job = set_of(&["a"]);
    let history = set_of(&["b"]);
    assert_eq!(MAX_UA_GENERATION_ATTEMPTS, 10);
    for rejected in 0..9u8 {
        assert_eq!(judge_candidate("a", &job, &history, rejected), Verdict::TryAgain);
        assert_eq!(judge_candidate("b", &job, &history, rejected), Verdict::TryAgain);
    }
    assert_eq!(judge_candidate("a", &job, &history, 9), Verdict::Repeated);
    assert_eq!(judge_candidate("b", &job, &history, 9), Verdict::Repeated);
    assert_eq!(judge_candidate("b", &job, &history, 200), Verdict::Repeated);
}

#[test]
fn picked_identity_stands_in_the_job_set() {
    let history = IdentitySet::new();
    let mut job = IdentitySet::new();
    let picked = generate_unique_user_agent(&history, &mut job);
    assert!(!picked.is_empty());
    assert!(job.contains(&picked));
    assert_eq!(job.len(), 1);
}

#[test]
fn identities_of_a_job_do_not_repeat() {
    // The pool holds thousands of strings: ten draws for each of eight chunks
    // do not run out of fresh ones.
    let mut history = IdentitySet::new();
    for _ in 0..3 {
        let mut job = IdentitySet::new();
        let mut picks: Vec<String> = Vec::new();
        for _ in 0..8 {
            let picked = generate_unique_user_agent(&history, &mut job);
            assert!(!picks.contains(&picked));
            assert!(!history.contains(&picked));
            picks.push(picked);
        }
        assert_eq!(job.len(), 8);
        for pick in &picks {
            assert!(job.contains(pick));
        }
        history = job;
    }
}

#[test]
fn candidate_that_is_turned_down_leaves_the_job_as_it_was() {
    let history = set_of(&["b"]);
    let mut job = set_of(&["a"]);
    for rejected in 0..9u8 {
        assert_eq!(take_candidate("a".to_string(), &history, &mut job, rejected), None);
        assert_eq!(take_candidate("b".to_string(), &history, &mut job, rejected), None);
    }
    assert_eq!(job.to_vec(), vec!["a".to_string()]);
}

#[test]
fn candidate_that_is_taken_joins_the_job() {
    let history = set_of(&["b"]);
    let mut job = set_of(&["a"]);
    // A fresh one is taken at once.
    assert_eq!(take_candidate("c".to_string(), &history, &mut job, 0), Some("c".to_string()));
    assert_eq!(job.to_vec(), vec!["a".to_string(), "c".to_string()]);
    // The tenth candidate is taken though the job before used it.
    assert_eq!(take_candidate("b".to_string(), &history, &mut job, 9), Some("b".to_string()));
    assert_eq!(job.to_vec(), vec!["a".to_string(), "c".to_string(), "b".to_string()]);
    // The tenth candidate is taken though this job used it; it is not held twice.
    assert_eq!(take_candidate("a".to_string(), &history, &mut job, 9), Some("a".to_string()));
    assert_eq!(job.len(), 3);
}
