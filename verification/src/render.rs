use vstd::prelude::*;
use crate::raster::RgbImage;

verus! {

/// The software renderer; it carries no state.
pub struct CpuRenderer;

impl CpuRenderer {
    pub fn new() -> (r: CpuRenderer)
        ensures
            r == (CpuRenderer {}),
    {
        CpuRenderer
    }
}

/// What a render hands back: the picture, the number of samples averaged
/// into each pixel, and the name of the backend that drew it.
pub struct RenderResult {
    pub image: RgbImage,
    pub samples: u32,
    pub backend: &'static str,
}

/// When a renderer stops taking samples: once the time since it started
/// reaches a limit, or once it has taken a given number of samples.
#[derive(Debug, Clone, Copy, PartialEq, Eq, Structural)]
pub enum SampleBudget {
    TimeLimit { nanos: u128 },
    Samples { count: u32 },
}

/// Whether a renderer that has taken `taken` samples, `elapsed_nanos` after
/// it started, has spent its budget.
pub open spec fn budget_spent(budget: SampleBudget, taken: u32, elapsed_nanos: u128) -> bool {
    match budget {
        SampleBudget::TimeLimit { nanos } => elapsed_nanos >= nanos,
        SampleBudget::Samples { count } => taken >= count,
    }
}

/// The sampling loop of a renderer: a full pass over the image, one more
/// sample counted, then a check of the budget.  The renderer runs the pass and
/// reads the clock; this decides whether another pass follows.
pub struct SampleSchedule {
    pub budget: SampleBudget,
    pub taken: u32,
}

impl SampleSchedule {
    pub fn new(budget: SampleBudget) -> (s: SampleSchedule)
        ensures
            s.budget == budget,
            s.taken == 0,
    {
        SampleSchedule { budget, taken: 0 }
    }

    /// Records a finished pass, `elapsed_nanos` after rendering began, and
    /// says whether the renderer stops now.
    pub fn finish_pass(&mut self, elapsed_nanos: u128) -> (stop: bool)
        requires
            old(self).taken < u32::MAX,
        ensures
            final(self).budget == old(self).budget,
            final(self).taken == old(self).taken + 1,
            stop == budget_spent(old(self).budget, final(self).taken, elapsed_nanos),
            old(self).budget matches SampleBudget::TimeLimit { nanos } ==> (stop <==> elapsed_nanos
                >= nanos),
            old(self).budget matches SampleBudget::Samples { count } ==> (stop <==> old(self).taken
                + 1 >= count),
    {
        self.taken = self.taken + 1;
        match self.budget {
            SampleBudget::TimeLimit { nanos } => elapsed_nanos >= nanos,
            SampleBudget::Samples { count } => self.taken >= count,
        }
    }
}

/// With a budget of `count` samples, a schedule started afresh stops for the
/// first time after exactly `max(count, 1)` passes, whatever the clock says:
/// every earlier pass continues and that pass stops.
pub proof fn lemma_sample_budget_pass_count(count: u32, passes: u32, elapsed_nanos: u128)
    requires
        1 <= passes,
    ensures
        budget_spent(SampleBudget::Samples { count }, passes, elapsed_nanos) <==> passes >= count,
        passes < count ==> !budget_spent(SampleBudget::Samples { count }, passes, elapsed_nanos),
        passes == (if count == 0 { 1 } else { count }) ==> budget_spent(
            SampleBudget::Samples { count },
            passes,
            elapsed_nanos,
        ),
{
}

/// A time budget is spent exactly when the time since rendering began has
/// reached the whole limit, however many samples were taken: a render keeps
/// sampling while it is short of the limit, in every unit of time.
pub proof fn lemma_time_budget_spent_at_limit(nanos: u128, taken: u32, elapsed_nanos: u128)
    ensures
        budget_spent(SampleBudget::TimeLimit { nanos }, taken, elapsed_nanos) <==> elapsed_nanos
            >= nanos,
        elapsed_nanos < nanos ==> !budget_spent(SampleBudget::TimeLimit { nanos }, taken, elapsed_nanos),
        forall|later: u128|
            elapsed_nanos <= later && budget_spent(
                SampleBudget::TimeLimit { nanos },
                taken,
                elapsed_nanos,
            ) ==> #[trigger] budget_spent(SampleBudget::TimeLimit { nanos }, taken, later),
{
}

} // verus!
