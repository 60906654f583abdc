//! Steps of a generation and how each step went, as reported to clients.

use vstd::prelude::*;

verus! {

/// A step of the generation pipeline.
#[derive(Clone, Copy, Debug, PartialEq, Eq, Structural)]
pub enum GenerationStep {
    Retrieve,
    Rerank,
    Plan,
    Restitution,
    Resume,
    CoverLetter,
    Validate,
    Persist,
    Done,
}

/// How a step went.
#[derive(Clone, Copy, Debug, PartialEq, Eq, Structural)]
pub enum StepStatus {
    Started,
    Done,
    Failed,
}

/// The name a step is reported under.
pub open spec fn step_name(s: GenerationStep) -> Seq<char> {
    match s {
        GenerationStep::Retrieve => "retrieve"@,
        GenerationStep::Rerank => "rerank"@,
        GenerationStep::Plan => "plan"@,
        GenerationStep::Restitution => "restitution"@,
        GenerationStep::Resume => "resume"@,
        GenerationStep::CoverLetter => "cover_letter"@,
        GenerationStep::Validate => "validate"@,
        GenerationStep::Persist => "persist"@,
        GenerationStep::Done => "done"@,
    }
}

/// The name a status is reported under.
pub open spec fn status_name(s: StepStatus) -> Seq<char> {
    match s {
        StepStatus::Started => "started"@,
        StepStatus::Done => "done"@,
        StepStatus::Failed => "failed"@,
    }
}

impl GenerationStep {
    /// The name this step is reported under.
    pub fn as_str(&self) -> (r: &'static str)
        ensures
            r@ == step_name(*self),
    {
        match self {
            GenerationStep::Retrieve => "retrieve",
            GenerationStep::Rerank => "rerank",
            GenerationStep::Plan => "plan",
            GenerationStep::Restitution => "restitution",
            GenerationStep::Resume => "resume",
            GenerationStep::CoverLetter => "cover_letter",
            GenerationStep::Validate => "validate",
            GenerationStep::Persist => "persist",
            GenerationStep::Done => "done",
        }
    }
}

impl StepStatus {
    /// The name this status is reported under.
    pub fn as_str(&self) -> (r: &'static str)
        ensures
            r@ == status_name(*self),
    {
        match self {
            StepStatus::Started => "started",
            StepStatus::Done => "done",
            StepStatus::Failed => "failed",
        }
    }
}

} // verus!
