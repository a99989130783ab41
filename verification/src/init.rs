use vstd::prelude::*;

verus! {

/// Whether libcgroup's one-time initialisation (`cgroup_init`) has been
/// run in this process.
pub struct InitState {
    initialized: bool,
}

impl InitState {
    /// Whether the initialisation has run.
    pub closed spec fn is_initialized(&self) -> bool {
        self.initialized
    }

    /// Nothing has been initialised yet.
    pub fn new() -> (s: InitState)
        ensures
            !s.is_initialized(),
    {
        InitState { initialized: false }
    }

    /// Whether `cgroup_init` must run now: on the first call only; every
    /// call leaves the state initialised.
    pub fn init(&mut self) -> (run: bool)
        ensures
            run == !old(self).is_initialized(),
            final(self).is_initialized(),
    {
        let run = !self.initialized;
        self.initialized = true;
        run
    }
}

/// How many of `calls` successive calls of `init`, from a state that is
/// initialised or not, run `cgroup_init`.
pub open spec fn init_runs(initialized: bool, calls: nat) -> nat
    decreases calls,
{
    if calls == 0 {
        0
    } else {
        (if initialized { 0nat } else { 1nat }) + init_runs(true, (calls - 1) as nat)
    }
}

/// However often `init` is called, `cgroup_init` runs once: on the first
/// call from a fresh state, and never from an initialised one.
pub proof fn lemma_init_runs_once(calls: nat)
    ensures
        init_runs(false, calls) == (if calls == 0 { 0nat } else { 1nat }),
        init_runs(true, calls) == 0,
    decreases calls,
{
    if calls > 0 {
        lemma_init_runs_once((calls - 1) as nat);
    }
}

} // verus!
