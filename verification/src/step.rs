//! The step graph: an ordered list of compute passes and buffer swaps.

use vstd::prelude::*;

verus! {

/// One dispatch of a compute program over a grid of workgroups.
#[derive(Clone, Debug, PartialEq, Eq)]
pub struct ComputePass {
    /// The number of workgroups along each of the three axes.
    pub workgroups: [u32; 3],
    /// The names of the bound device buffers; the position of a name is the
    /// binding slot of its buffer.
    pub vars: Vec<String>,
    /// The identity of the compute program.
    pub shader_uuid: u128,
}

/// One operation of the step graph.
#[derive(Clone, Debug, PartialEq, Eq)]
pub enum Step {
    /// Dispatch a compute pass.
    ComputePass(ComputePass),
    /// Exchange the device buffers registered under two names.
    Swap(String, String),
}

/// The mathematical value of a `ComputePass`.
pub struct ComputePassView {
    pub workgroups: [u32; 3],
    pub vars: Seq<Seq<char>>,
    pub shader_uuid: u128,
}

/// The mathematical value of a `Step`.
pub enum StepView {
    ComputePass(ComputePassView),
    Swap(Seq<char>, Seq<char>),
}

/// The characters of each name of a list.
pub open spec fn names_view(names: Seq<String>) -> Seq<Seq<char>> {
    names.map_values(|name: String| name@)
}

/// The mathematical value of each step of a list.
pub open spec fn steps_view(steps: Seq<Step>) -> Seq<StepView> {
    steps.map_values(|step: Step| step@)
}

impl View for ComputePass {
    type V = ComputePassView;

    open spec fn view(&self) -> ComputePassView {
        ComputePassView {
            workgroups: self.workgroups,
            vars: names_view(self.vars@),
            shader_uuid: self.shader_uuid,
        }
    }
}

impl View for Step {
    type V = StepView;

    open spec fn view(&self) -> StepView {
        match *self {
            Step::ComputePass(pass) => StepView::ComputePass(pass@),
            Step::Swap(a, b) => StepView::Swap(a@, b@),
        }
    }
}

/// The text that `{:?}` formatting gives for a step; it depends on the step's
/// value alone.
pub uninterp spec fn step_text(step: StepView) -> Seq<char>;

/// `format!` with `{:?}`: the derived `Debug` text of the step.
#[verifier::external_body]
pub(crate) fn describe(step: &Step) -> (text: String)
    ensures
        text@ == step_text(step@),
{
    format!("{:?}", step)
}

} // verus!
