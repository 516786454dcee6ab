use coldtrace::run_dir::{
    run_dir_candidate, CreateDirOutcome, RunDirSearch, RunDirStep, MAX_RUN_DIR_ATTEMPTS, RUNS_DIR,
};

#[test]
fn candidates_are_the_id_then_numbered_suffixes() {
    assert_eq!(RUNS_DIR, "runs");
    assert_eq!(run_dir_candidate("id", 0), "id");
    assert_eq!(run_dir_candidate("id", 1), "id-1");
    assert_eq!(run_dir_candidate("id", 10), "id-10");
    assert_eq!(run_dir_candidate("id", 999), "id-999");
}

#[test]
fn taken_names_move_on_until_one_is_created() {
    let search = RunDirSearch::new("20260622T022115.254Z-x");
    assert_eq!(search.candidate(), "20260622T022115.254Z-x");
    let search = match search.record(CreateDirOutcome::AlreadyExists) {
        RunDirStep::Retry(next) => next,
        other => panic!("unexpected {:?}", other),
    };
    assert_eq!(search.candidate(), "20260622T022115.254Z-x-1");
    let search = match search.record(CreateDirOutcome::AlreadyExists) {
        RunDirStep::Retry(next) => next,
        other => panic!("unexpected {:?}", other),
    };
    match search.record(CreateDirOutcome::Created) {
        RunDirStep::Allocated(name) => assert_eq!(name, "20260622T022115.254Z-x-2"),
        other => panic!("unexpected {:?}", other),
    }
}

#[test]
fn other_failures_end_the_search() {
    let search = RunDirSearch::new("id");
    match search.record(CreateDirOutcome::Failed) {
        RunDirStep::Failed(name) => assert_eq!(name, "id"),
        other => panic!("unexpected {:?}", other),
    }
}

#[test]
fn the_search_gives_up_after_the_last_allowed_name() {
    let mut search = RunDirSearch::new("id");
    let mut tried = Vec::new();
    loop {
        tried.push(search.candidate());
        match search.record(CreateDirOutcome::AlreadyExists) {
            RunDirStep::Retry(next) => search = next,
            RunDirStep::Exhausted => break,
            other => panic!("unexpected {:?}", other),
        }
    }
    assert_eq!(tried.len(), MAX_RUN_DIR_ATTEMPTS as usize);
    assert_eq!(tried.last().unwrap(), "id-999");
    let mut sorted = tried.clone();
    sorted.sort();
    sorted.dedup();
    assert_eq!(sorted.len(), tried.len());
}
