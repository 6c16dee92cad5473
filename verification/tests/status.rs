use wishlist::status::{Progress, Status};

#[test]
fn new_status_is_inactive() {
    let status = Status::new();
    assert!(!status.is_active());
    assert_eq!(status.depth(), 0);
    assert!(status.stages().is_empty());
}

#[test]
fn push_stage_opens_a_stage_with_a_fresh_counter() {
    let mut status = Status::new();
    status.push_stage("Downloading Storage", Some(3));
    assert!(status.is_active());
    let stages = status.stages();
    assert_eq!(stages.len(), 1);
    assert_eq!(stages[0].title, "Downloading Storage");
    assert_eq!(stages[0].progress, Some(Progress { max: 3, progress: 0 }));
}

#[test]
fn push_stage_without_limit_has_no_counter() {
    let mut status = Status::new();
    status.push_stage("Scanning Storage", None);
    assert_eq!(status.stages()[0].progress, None);
}

#[test]
fn stages_nest_and_pop_in_reverse() {
    let mut status = Status::new();
    status.push_stage("outer", None);
    status.push_stage("inner", Some(1));
    assert_eq!(status.depth(), 2);
    status.pop_stage();
    assert_eq!(status.depth(), 1);
    assert_eq!(status.stages()[0].title, "outer");
    status.pop_stage();
    assert!(!status.is_active());
}

#[test]
fn pop_stage_on_empty_status_does_nothing() {
    let mut status = Status::new();
    status.pop_stage();
    assert!(!status.is_active());
    assert_eq!(status.depth(), 0);
}

#[test]
fn increment_progress_stops_at_the_limit() {
    let mut status = Status::new();
    status.push_stage("work", Some(2));
    status.increment_progress();
    assert_eq!(status.stages()[0].progress, Some(Progress { max: 2, progress: 1 }));
    status.increment_progress();
    assert_eq!(status.stages()[0].progress, Some(Progress { max: 2, progress: 2 }));
    status.increment_progress();
    assert_eq!(status.stages()[0].progress, Some(Progress { max: 2, progress: 2 }));
}

#[test]
fn increment_progress_falls_back_to_a_lowered_limit() {
    let mut status = Status::new();
    status.push_stage("work", Some(5));
    status.increment_progress();
    status.increment_progress();
    status.increment_progress();
    status.set_progress_max(1);
    status.increment_progress();
    assert_eq!(status.stages()[0].progress, Some(Progress { max: 1, progress: 1 }));
}

#[test]
fn increment_progress_touches_only_the_innermost_stage() {
    let mut status = Status::new();
    status.push_stage("outer", Some(4));
    status.push_stage("inner", Some(4));
    status.increment_progress();
    assert_eq!(status.stages()[0].progress, Some(Progress { max: 4, progress: 0 }));
    assert_eq!(status.stages()[1].progress, Some(Progress { max: 4, progress: 1 }));
}

#[test]
fn set_progress_max_changes_only_the_limit() {
    let mut status = Status::new();
    status.push_stage("work", Some(2));
    status.increment_progress();
    status.set_progress_max(7);
    assert_eq!(status.stages()[0].progress, Some(Progress { max: 7, progress: 1 }));
}

#[test]
fn progress_calls_without_counter_or_stage_do_nothing() {
    let mut status = Status::new();
    status.set_progress_max(3);
    status.increment_progress();
    assert!(!status.is_active());
    status.push_stage("work", None);
    status.set_progress_max(3);
    status.increment_progress();
    assert_eq!(status.stages()[0].progress, None);
    assert_eq!(status.stages()[0].title, "work");
}
