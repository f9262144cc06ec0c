//! The stages of a build: a single pass without retries, which ends in
//! success after the last stage or in failure at the first stage that fails.

use vstd::prelude::*;

verus! {

/// Where a build stands.
#[derive(Clone, Copy, Debug, PartialEq, Eq, Structural)]
pub enum Stage {
    /// Nothing has been done yet.
    Start,
    /// The output directory is being removed.
    ResetOutput,
    /// The templates are being loaded.
    LoadTemplates,
    /// The content tree is being walked and its pages picked.
    DiscoverAndFilterContent,
    /// The pages are being rendered and written.
    RenderAll,
    /// Every page has been rendered and written.
    Done,
    /// A stage has failed.
    Failed,
}

impl Stage {
    /// Whether the build has ended.
    pub open spec fn spec_is_final(self) -> bool {
        self == Stage::Done || self == Stage::Failed
    }

    /// The number of stages that still have to succeed before the build is
    /// done; `0` for a build that has ended.
    pub open spec fn spec_remaining(self) -> nat {
        match self {
            Stage::Start => 5,
            Stage::ResetOutput => 4,
            Stage::LoadTemplates => 3,
            Stage::DiscoverAndFilterContent => 2,
            Stage::RenderAll => 1,
            Stage::Done => 0,
            Stage::Failed => 0,
        }
    }

    /// The stage after this one, given whether the work of this one
    /// succeeded. A build that has ended stays where it is.
    pub open spec fn spec_advance(self, succeeded: bool) -> Stage {
        if self.spec_is_final() {
            self
        } else if !succeeded {
            Stage::Failed
        } else {
            match self {
                Stage::Start => Stage::ResetOutput,
                Stage::ResetOutput => Stage::LoadTemplates,
                Stage::LoadTemplates => Stage::DiscoverAndFilterContent,
                Stage::DiscoverAndFilterContent => Stage::RenderAll,
                _ => Stage::Done,
            }
        }
    }

    /// Where a build that stands at this stage ends up after the outcomes
    /// `outcomes`, taken in their order.
    pub open spec fn spec_run(self, outcomes: Seq<bool>) -> Stage
        decreases outcomes.len(),
    {
        if outcomes.len() == 0 {
            self
        } else {
            self.spec_advance(outcomes[0]).spec_run(outcomes.drop_first())
        }
    }

    /// Whether the build has ended.
    pub fn is_final(self) -> (r: bool)
        ensures
            r == self.spec_is_final(),
    {
        match self {
            Stage::Done => true,
            Stage::Failed => true,
            _ => false,
        }
    }

    /// The stage after this one, given whether the work of this one
    /// succeeded.
    pub fn advance(self, succeeded: bool) -> (next: Stage)
        ensures
            next == self.spec_advance(succeeded),
    {
        match self {
            Stage::Done => Stage::Done,
            Stage::Failed => Stage::Failed,
            _ => if !succeeded {
                Stage::Failed
            } else {
                match self {
                    Stage::Start => Stage::ResetOutput,
                    Stage::ResetOutput => Stage::LoadTemplates,
                    Stage::LoadTemplates => Stage::DiscoverAndFilterContent,
                    Stage::DiscoverAndFilterContent => Stage::RenderAll,
                    _ => Stage::Done,
                }
            },
        }
    }
}

/// A build that has ended stays where it is, whatever it is told.
pub proof fn lemma_final_stays(stage: Stage, outcomes: Seq<bool>)
    requires
        stage.spec_is_final(),
    ensures
        stage.spec_run(outcomes) == stage,
    decreases outcomes.len(),
{
    if outcomes.len() > 0 {
        lemma_final_stays(stage, outcomes.drop_first());
    }
}

/// A build ends in success exactly when as many stages succeed in a row as
/// were left, and in failure as soon as one reports a failure before that.
pub proof fn lemma_run_ends(stage: Stage, outcomes: Seq<bool>)
    requires
        !stage.spec_is_final(),
    ensures
        stage.spec_run(outcomes) == Stage::Done <==> (outcomes.len() >= stage.spec_remaining()
            && forall|i: int| 0 <= i < stage.spec_remaining() ==> outcomes[i]),
        stage.spec_run(outcomes) == Stage::Failed <==> (exists|k: int|
            0 <= k < outcomes.len() && k < stage.spec_remaining() && !#[trigger] outcomes[k]),
    decreases outcomes.len(),
{
    if outcomes.len() > 0 {
        let next = stage.spec_advance(outcomes[0]);
        let rest = outcomes.drop_first();
        if next.spec_is_final() {
            lemma_final_stays(next, rest);
            if outcomes[0] {
                assert(stage == Stage::RenderAll);
            } else {
                assert(!outcomes[0]);
            }
        } else {
            lemma_run_ends(next, rest);
            assert(outcomes[0]);
            assert(next.spec_remaining() == stage.spec_remaining() - 1);
            if stage.spec_run(outcomes) == Stage::Done {
                assert forall|i: int| 0 <= i < stage.spec_remaining() implies outcomes[i] by {
                    if i > 0 {
                        assert(rest[i - 1] == outcomes[i]);
                    }
                }
            }
            if outcomes.len() >= stage.spec_remaining() && forall|i: int|
                0 <= i < stage.spec_remaining() ==> outcomes[i] {
                assert forall|i: int| 0 <= i < next.spec_remaining() implies rest[i] by {
                    assert(rest[i] == outcomes[i + 1]);
                }
            }
            if stage.spec_run(outcomes) == Stage::Failed {
                let k = choose|k: int|
                    0 <= k < rest.len() && k < next.spec_remaining() && !#[trigger] rest[k];
                assert(!outcomes[k + 1]);
            }
            if exists|k: int|
                0 <= k < outcomes.len() && k < stage.spec_remaining() && !#[trigger] outcomes[k] {
                let k = choose|k: int|
                    0 <= k < outcomes.len() && k < stage.spec_remaining() && !#[trigger] outcomes[k];
                assert(k > 0);
                assert(!rest[k - 1]);
            }
        }
    }
}

} // verus!
