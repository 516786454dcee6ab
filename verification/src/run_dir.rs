//! Choosing a fresh run directory: the run id itself first, then the id with
//! `-1`, `-2`, ... appended, for at most `MAX_RUN_DIR_ATTEMPTS` names. The
//! directory is created outside the library; `RunDirSearch` decides, from the
//! outcome of each attempt, what happens next.
use vstd::prelude::*;

use crate::text::{decimal, lemma_decimal_digits, lemma_decimal_injective, push_decimal};

verus! {

/// The directory under which every run directory is created.
pub const RUNS_DIR: &'static str = "runs";

/// How many directory names are tried before giving up.
pub const MAX_RUN_DIR_ATTEMPTS: u32 = 1000;

/// The directory name of attempt `suffix`: the run id itself for the first
/// attempt, else the run id, a dash and the attempt number.
pub open spec fn candidate_name(base: Seq<char>, suffix: nat) -> Seq<char> {
    if suffix == 0 {
        base
    } else {
        base + seq!['-'] + decimal(suffix)
    }
}

/// The directory name of attempt `suffix` for the run id `base_run_id`.
pub fn run_dir_candidate(base_run_id: &str, suffix: u32) -> (r: String)
    ensures
        r@ == candidate_name(base_run_id@, suffix as nat),
{
    let mut r = base_run_id.to_owned();
    if suffix != 0 {
        r.push('-');
        push_decimal(&mut r, suffix);
        assert(r@ =~= base_run_id@ + seq!['-'] + decimal(suffix as nat));
    }
    r
}

/// Different attempts never try the same directory name.
pub proof fn lemma_candidates_distinct(base: Seq<char>, i: nat, j: nat)
    requires
        i != j,
    ensures
        candidate_name(base, i) != candidate_name(base, j),
{
    lemma_decimal_digits(i);
    lemma_decimal_digits(j);
    let a = candidate_name(base, i);
    let b = candidate_name(base, j);
    if i == 0 || j == 0 {
        assert(a.len() != b.len());
    } else if a == b {
        assert(decimal(i) =~= a.subrange(base.len() as int + 1, a.len() as int));
        assert(decimal(j) =~= b.subrange(base.len() as int + 1, b.len() as int));
        lemma_decimal_injective(i, j);
    }
}

/// What became of an attempt to create a run directory.
#[derive(Debug, Clone, Copy, PartialEq, Eq, Structural)]
pub enum CreateDirOutcome {
    /// The directory was created.
    Created,
    /// A directory of that name is already there.
    AlreadyExists,
    /// Creating it failed for another reason.
    Failed,
}

/// The search for a fresh run directory, at one attempt.
#[derive(Debug)]
pub struct RunDirSearch {
    base: String,
    attempt: u32,
}

/// What the search does after an attempt.
#[derive(Debug)]
pub enum RunDirStep {
    /// The directory of this name was created: it is the run's directory.
    Allocated(String),
    /// The name was taken: try the next one.
    Retry(RunDirSearch),
    /// Creating the directory of this name failed: the run fails.
    Failed(String),
    /// Every allowed name was taken: the run fails.
    Exhausted,
}

impl RunDirSearch {
    /// The run id whose directory is sought.
    pub closed spec fn base_id(&self) -> Seq<char> {
        self.base@
    }

    /// The number of the current attempt, from zero.
    pub closed spec fn attempt_number(&self) -> nat {
        self.attempt as nat
    }

    /// The current attempt is always one of the allowed ones.
    #[verifier::type_invariant]
    spec fn attempt_allowed(&self) -> bool {
        self.attempt < MAX_RUN_DIR_ATTEMPTS
    }

    /// The directory name that the current attempt tries.
    pub open spec fn current_name(&self) -> Seq<char> {
        candidate_name(self.base_id(), self.attempt_number())
    }

    /// Starts the search for a directory for the run id `base_run_id`.
    pub fn new(base_run_id: &str) -> (s: Self)
        ensures
            s.base_id() == base_run_id@,
            s.attempt_number() == 0,
    {
        RunDirSearch { base: base_run_id.to_owned(), attempt: 0 }
    }

    /// The directory name to try now.
    pub fn candidate(&self) -> (r: String)
        ensures
            r@ == self.current_name(),
    {
        run_dir_candidate(self.base.as_str(), self.attempt)
    }

    /// The next step after the current attempt came out as `outcome`: a
    /// created directory is the run's; a taken name moves on to the next
    /// attempt unless this was the last allowed one; any other failure ends
    /// the search with the name that failed.
    pub fn record(self, outcome: CreateDirOutcome) -> (step: RunDirStep)
        ensures
            self.attempt_number() < MAX_RUN_DIR_ATTEMPTS,
            outcome == CreateDirOutcome::Created ==> (step matches RunDirStep::Allocated(name)
                && name@ == self.current_name()),
            outcome == CreateDirOutcome::Failed ==> (step matches RunDirStep::Failed(name)
                && name@ == self.current_name()),
            outcome == CreateDirOutcome::AlreadyExists && self.attempt_number() + 1
                < MAX_RUN_DIR_ATTEMPTS ==> (step matches RunDirStep::Retry(next)
                && next.base_id() == self.base_id() && next.attempt_number()
                == self.attempt_number() + 1),
            outcome == CreateDirOutcome::AlreadyExists && self.attempt_number() + 1
                >= MAX_RUN_DIR_ATTEMPTS ==> step is Exhausted,
    {
        proof {
            use_type_invariant(&self);
        }
        match outcome {
            CreateDirOutcome::Created => RunDirStep::Allocated(self.candidate()),
            CreateDirOutcome::Failed => RunDirStep::Failed(self.candidate()),
            CreateDirOutcome::AlreadyExists => {
                if self.attempt + 1 < MAX_RUN_DIR_ATTEMPTS {
                    RunDirStep::Retry(RunDirSearch { base: self.base, attempt: self.attempt + 1 })
                } else {
                    RunDirStep::Exhausted
                }
            },
        }
    }
}

} // verus!
