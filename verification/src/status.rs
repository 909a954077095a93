//! The tally of a run over many boards.

use vstd::prelude::*;

verus! {

/// How many boards passed and how many failed.
pub struct RunStatus {
    failures: usize,
    passes: usize,
}

/// The scenarios that one board is put through by `run_single`, in order.
#[derive(Copy, Clone, Debug, PartialEq, Eq, Structural)]
pub enum Scenario {
    SignfailUpgrade,
    NorevertNewimage,
    BasicRevert,
    RevertWithFails,
    PermWithFails,
    PermWithRandomFails,
    Norevert,
    WithStatusFailsComplete,
    WithStatusFailsWithReset,
}

/// Whether one of the verdicts is a failure.
pub open spec fn any_failed(verdicts: Seq<bool>) -> bool {
    exists|i: int| 0 <= i < verdicts.len() && #[trigger] verdicts[i]
}

impl RunStatus {
    /// The number of boards that failed.
    pub closed spec fn spec_failures(&self) -> usize {
        self.failures
    }

    /// The number of boards that passed.
    pub closed spec fn spec_passes(&self) -> usize {
        self.passes
    }

    /// A tally of nothing.
    pub fn new() -> (res: RunStatus)
        ensures
            res.spec_failures() == 0,
            res.spec_passes() == 0,
    {
        RunStatus { failures: 0, passes: 0 }
    }

    /// The scenarios that one board is put through, in order.
    pub fn plan() -> (res: Vec<Scenario>)
        ensures
            res@ == seq![
                Scenario::SignfailUpgrade,
                Scenario::NorevertNewimage,
                Scenario::BasicRevert,
                Scenario::RevertWithFails,
                Scenario::PermWithFails,
                Scenario::PermWithRandomFails,
                Scenario::Norevert,
                Scenario::WithStatusFailsComplete,
                Scenario::WithStatusFailsWithReset,
            ],
    {
        let res: Vec<Scenario> = vec![
            Scenario::SignfailUpgrade,
            Scenario::NorevertNewimage,
            Scenario::BasicRevert,
            Scenario::RevertWithFails,
            Scenario::PermWithFails,
            Scenario::PermWithRandomFails,
            Scenario::Norevert,
            Scenario::WithStatusFailsComplete,
            Scenario::WithStatusFailsWithReset,
        ];
        assert(res@ =~= seq![
            Scenario::SignfailUpgrade,
            Scenario::NorevertNewimage,
            Scenario::BasicRevert,
            Scenario::RevertWithFails,
            Scenario::PermWithFails,
            Scenario::PermWithRandomFails,
            Scenario::Norevert,
            Scenario::WithStatusFailsComplete,
            Scenario::WithStatusFailsWithReset,
        ]);
        res
    }

    /// Takes note of one board, given for each scenario it was put through
    /// whether the scenario failed: the board failed if any scenario did.
    /// The tally stops at what can be counted.
    pub fn run_single(&mut self, verdicts: &Vec<bool>)
        ensures
            any_failed(verdicts@) ==> final(self).spec_passes() == old(self).spec_passes() && final(self).spec_failures() == if old(self).spec_failures() < usize::MAX {
                (old(self).spec_failures() + 1) as usize
            } else {
                old(self).spec_failures()
            },
            !any_failed(verdicts@) ==> final(self).spec_failures() == old(self).spec_failures()
                && final(self).spec_passes() == if old(self).spec_passes() < usize::MAX {
                (old(self).spec_passes() + 1) as usize
            } else {
                old(self).spec_passes()
            },
    {
        let mut failed: bool = false;
        let mut i: usize = 0;
        while i < verdicts.len()
            invariant
                i <= verdicts.len(),
                failed == any_failed(verdicts@.subrange(0, i as int)),
            decreases verdicts.len() - i,
        {
            let ghost before = verdicts@.subrange(0, i as int);
            let ghost after = verdicts@.subrange(0, i + 1);
            proof {
                if any_failed(before) {
                    let k = choose|k: int| 0 <= k < before.len() && #[trigger] before[k];
                    assert(after[k]);
                }
                if verdicts@[i as int] {
                    assert(after[i as int]);
                }
                if any_failed(after) {
                    let k = choose|k: int| 0 <= k < after.len() && #[trigger] after[k];
                    if k < i {
                        assert(before[k]);
                    }
                }
            }
            failed = failed || verdicts[i];
            i = i + 1;
        }
        assert(verdicts@.subrange(0, i as int) =~= verdicts@);
        if failed {
            if self.failures < usize::MAX {
                self.failures = self.failures + 1;
            }
        } else {
            if self.passes < usize::MAX {
                self.passes = self.passes + 1;
            }
        }
    }

    /// The number of boards that failed.
    pub fn failures(&self) -> (res: usize)
        ensures
            res == self.spec_failures(),
    {
        self.failures
    }

    /// The number of boards that passed.
    pub fn passes(&self) -> (res: usize)
        ensures
            res == self.spec_passes(),
    {
        self.passes
    }

    /// The exit status of the run: 1 if a board failed, 0 otherwise.
    pub fn exit_code(&self) -> (res: i32)
        ensures
            res == if self.spec_failures() > 0 {
                1i32
            } else {
                0i32
            },
    {
        if self.failures > 0 {
            1
        } else {
            0
        }
    }
}

} // verus!
