//! The decisions of a generation, one step at a time: the caller performs
//! each action (reading the offer and profile, writing the application,
//! running the model steps) and hands back what came of it. A request for
//! no document is refused before anything is read; once the application is
//! marked as generating, any failure marks it failed; success stores the
//! new documents over the kept ones and marks it ready.

use vstd::prelude::*;
use crate::errors::AppError;
use crate::generate::{
    check_outputs, documents_before_generation, documents_during_generation, merge_generated_outputs,
    merged_documents, outputs_problem, GenerateError, GeneratedDocuments, Livrables, Resume,
};
use crate::intake_flow::{app_error_model, AppErrorModel};
use crate::json::JsonValue;

verus! {

/// The documents of an application: analysis, résumé, cover letter.
pub type Documents = GeneratedDocuments<JsonValue, Resume, JsonValue>;

/// What a generation produced: analysis, résumé and letter, each when made.
pub type Produced = (Option<JsonValue>, Option<Resume>, Option<JsonValue>);

/// Where a generation stands.
#[derive(Clone, Copy, Debug, PartialEq, Eq, Structural)]
pub enum GenerationPhase {
    Start,
    AwaitContext,
    AwaitGeneratingWrite,
    AwaitSteps,
    AwaitReload,
    AwaitReadyWrite,
    AwaitFailedWrite,
    Done,
}

/// The state of a generation.
pub struct GenerationState {
    pub phase: GenerationPhase,
    pub livrables: Livrables,
    /// The documents produced, once checked.
    pub produced: Option<Produced>,
    /// The failure to report once the application is marked failed.
    pub error: Option<GenerateError>,
}

/// What came of the last action.
pub enum GenerationEvent {
    /// The generation starts.
    Begin,
    /// The offer and profile were read; the documents of the application
    /// being regenerated, if there is one.
    ContextLoaded { existing: Option<Documents> },
    /// The last write went through.
    Written,
    /// The model steps produced these documents; `cover_complete` says,
    /// when a letter was made, whether it has its greeting, opening and
    /// closing.
    StepsDone { produced: Produced, cover_complete: Option<bool> },
    /// The application as stored, read back (none when it is gone).
    Reloaded(Option<Documents>),
    /// The last action failed.
    Failed(GenerateError),
}

/// What to do next.
pub enum GenerationAction {
    /// Read the offer, the profile and the application being regenerated.
    LoadContext,
    /// Store the application with status Generating and these documents.
    WriteGenerating(Documents),
    /// Run the retrieval, reranking, planning and document steps.
    RunSteps,
    /// Read the application back.
    Reload,
    /// Store these documents with status Ready.
    WriteReady(Documents),
    /// Mark the application Failed, when it still exists.
    WriteFailed,
    /// The generation is over, with this outcome.
    Finish(Result<(), GenerateError>),
}

/// A generation failure, as values.
pub enum GenerateErrorModel {
    OffreIntrouvable(Seq<char>),
    ProfilIntrouvable(Seq<char>),
    AucunLivrable,
    AucunChunkPertinent,
    Invalide(Seq<char>),
    App(AppErrorModel),
}

pub open spec fn generate_error_model(e: GenerateError) -> GenerateErrorModel {
    match e {
        GenerateError::OffreIntrouvable(m) => GenerateErrorModel::OffreIntrouvable(m@),
        GenerateError::ProfilIntrouvable(m) => GenerateErrorModel::ProfilIntrouvable(m@),
        GenerateError::AucunLivrable => GenerateErrorModel::AucunLivrable,
        GenerateError::AucunChunkPertinent => GenerateErrorModel::AucunChunkPertinent,
        GenerateError::Invalide(m) => GenerateErrorModel::Invalide(m@),
        GenerateError::App(a) => GenerateErrorModel::App(app_error_model(a)),
    }
}

/// The state of a generation, as values.
pub struct GenerationStateModel {
    pub phase: GenerationPhase,
    pub livrables: Livrables,
    pub produced: Option<Produced>,
    pub error: Option<GenerateErrorModel>,
}

/// What came of an action, as values.
pub enum GenerationEventModel {
    Begin,
    ContextLoaded(Option<Documents>),
    Written,
    StepsDone(Produced, Option<bool>),
    Reloaded(Option<Documents>),
    Failed(GenerateErrorModel),
}

/// What to do next, as values.
pub enum GenerationActionModel {
    LoadContext,
    WriteGenerating(Documents),
    RunSteps,
    Reload,
    WriteReady(Documents),
    WriteFailed,
    Finish(Result<(), GenerateErrorModel>),
}

impl GenerationState {
    pub open spec fn model(&self) -> GenerationStateModel {
        GenerationStateModel {
            phase: self.phase,
            livrables: self.livrables,
            produced: self.produced,
            error: match self.error {
                Some(e) => Some(generate_error_model(e)),
                None => None,
            },
        }
    }

    /// A generation of `livrables`, about to begin.
    pub fn new(livrables: Livrables) -> (r: GenerationState)
        ensures
            r.model() == (GenerationStateModel {
                phase: GenerationPhase::Start,
                livrables,
                produced: None,
                error: None,
            }),
    {
        GenerationState { phase: GenerationPhase::Start, livrables, produced: None, error: None }
    }
}

impl GenerationEvent {
    pub open spec fn model(&self) -> GenerationEventModel {
        match self {
            GenerationEvent::Begin => GenerationEventModel::Begin,
            GenerationEvent::ContextLoaded { existing } => GenerationEventModel::ContextLoaded(*existing),
            GenerationEvent::Written => GenerationEventModel::Written,
            GenerationEvent::StepsDone { produced, cover_complete } => GenerationEventModel::StepsDone(
                *produced,
                *cover_complete,
            ),
            GenerationEvent::Reloaded(d) => GenerationEventModel::Reloaded(*d),
            GenerationEvent::Failed(e) => GenerationEventModel::Failed(generate_error_model(*e)),
        }
    }
}

impl GenerationAction {
    pub open spec fn model(&self) -> GenerationActionModel {
        match self {
            GenerationAction::LoadContext => GenerationActionModel::LoadContext,
            GenerationAction::WriteGenerating(d) => GenerationActionModel::WriteGenerating(*d),
            GenerationAction::RunSteps => GenerationActionModel::RunSteps,
            GenerationAction::Reload => GenerationActionModel::Reload,
            GenerationAction::WriteReady(d) => GenerationActionModel::WriteReady(*d),
            GenerationAction::WriteFailed => GenerationActionModel::WriteFailed,
            GenerationAction::Finish(r) => GenerationActionModel::Finish(
                match r {
                    Ok(()) => Ok(()),
                    Err(e) => Err(generate_error_model(*e)),
                },
            ),
        }
    }
}

/// The failure reported when the application is gone once the documents
/// are made.
pub open spec fn lost_instance_error() -> GenerateErrorModel {
    GenerateErrorModel::App(AppErrorModel::Other("Instance introuvable après génération"@))
}

/// The failure reported for an event that does not fit the phase.
pub open spec fn unexpected_error() -> GenerateErrorModel {
    GenerateErrorModel::App(AppErrorModel::Other("événement inattendu"@))
}

/// Once the application is marked generating, a failure marks it failed
/// and is reported afterwards.
pub open spec fn fail_model(s: GenerationStateModel, e: GenerateErrorModel) -> (GenerationStateModel, GenerationActionModel) {
    (
        GenerationStateModel { phase: GenerationPhase::AwaitFailedWrite, error: Some(e), ..s },
        GenerationActionModel::WriteFailed,
    )
}

/// One step of a generation.
pub open spec fn generation_step_model(s: GenerationStateModel, e: GenerationEventModel) -> (
    GenerationStateModel,
    GenerationActionModel,
) {
    let done = GenerationStateModel { phase: GenerationPhase::Done, ..s };
    match (s.phase, e) {
        (GenerationPhase::Start, GenerationEventModel::Begin) => {
            if !s.livrables.restitution && !s.livrables.resume && !s.livrables.cover_letter {
                (done, GenerationActionModel::Finish(Err(GenerateErrorModel::AucunLivrable)))
            } else {
                (GenerationStateModel { phase: GenerationPhase::AwaitContext, ..s }, GenerationActionModel::LoadContext)
            }
        },
        (GenerationPhase::AwaitContext, GenerationEventModel::ContextLoaded(existing)) => (
            GenerationStateModel { phase: GenerationPhase::AwaitGeneratingWrite, ..s },
            GenerationActionModel::WriteGenerating(documents_during_generation(s.livrables, existing)),
        ),
        (GenerationPhase::AwaitContext, GenerationEventModel::Failed(err)) => (
            done,
            GenerationActionModel::Finish(Err(err)),
        ),
        (GenerationPhase::AwaitGeneratingWrite, GenerationEventModel::Written) => (
            GenerationStateModel { phase: GenerationPhase::AwaitSteps, ..s },
            GenerationActionModel::RunSteps,
        ),
        (GenerationPhase::AwaitGeneratingWrite, GenerationEventModel::Failed(err)) => (
            done,
            GenerationActionModel::Finish(Err(err)),
        ),
        (GenerationPhase::AwaitSteps, GenerationEventModel::StepsDone(p, complete)) => match outputs_problem(p.1, complete) {
            Some(m) => fail_model(s, GenerateErrorModel::Invalide(m)),
            None => (
                GenerationStateModel { phase: GenerationPhase::AwaitReload, produced: Some(p), ..s },
                GenerationActionModel::Reload,
            ),
        },
        (GenerationPhase::AwaitSteps, GenerationEventModel::Failed(err)) => fail_model(s, err),
        (GenerationPhase::AwaitReload, GenerationEventModel::Reloaded(Some(d))) => match s.produced {
            Some(p) => (
                GenerationStateModel { phase: GenerationPhase::AwaitReadyWrite, produced: None, ..s },
                GenerationActionModel::WriteReady(merged_documents(d, p.0, p.1, p.2)),
            ),
            None => fail_model(s, unexpected_error()),
        },
        (GenerationPhase::AwaitReload, GenerationEventModel::Reloaded(None)) => fail_model(s, lost_instance_error()),
        (GenerationPhase::AwaitReload, GenerationEventModel::Failed(err)) => fail_model(s, err),
        (GenerationPhase::AwaitReadyWrite, GenerationEventModel::Written) => (done, GenerationActionModel::Finish(Ok(()))),
        (GenerationPhase::AwaitReadyWrite, GenerationEventModel::Failed(err)) => fail_model(s, err),
        (GenerationPhase::AwaitFailedWrite, GenerationEventModel::Written) => (
            GenerationStateModel { error: None, ..done },
            GenerationActionModel::Finish(Err(
                match s.error {
                    Some(x) => x,
                    None => unexpected_error(),
                },
            )),
        ),
        (GenerationPhase::AwaitFailedWrite, GenerationEventModel::Failed(_)) => (
            GenerationStateModel { error: None, ..done },
            GenerationActionModel::Finish(Err(
                match s.error {
                    Some(x) => x,
                    None => unexpected_error(),
                },
            )),
        ),
        _ => (done, GenerationActionModel::Finish(Err(unexpected_error()))),
    }
}

fn unexpected() -> (r: GenerateError)
    ensures
        generate_error_model(r) == unexpected_error(),
{
    GenerateError::App(AppError::Other("événement inattendu".to_owned()))
}

fn fail(s: GenerationState, e: GenerateError) -> (r: (GenerationState, GenerationAction))
    ensures
        (r.0.model(), r.1.model()) == fail_model(s.model(), generate_error_model(e)),
{
    (GenerationState { phase: GenerationPhase::AwaitFailedWrite, error: Some(e), ..s }, GenerationAction::WriteFailed)
}

/// One step of a generation (see `generation_step_model`).
pub fn generation_step(state: GenerationState, event: GenerationEvent) -> (r: (GenerationState, GenerationAction))
    ensures
        (r.0.model(), r.1.model()) == generation_step_model(state.model(), event.model()),
{
    let s = state;
    let phase = s.phase;
    match event {
        GenerationEvent::Begin => {
            if phase == GenerationPhase::Start {
                if s.livrables.aucun() {
                    (
                        GenerationState { phase: GenerationPhase::Done, ..s },
                        GenerationAction::Finish(Err(GenerateError::AucunLivrable)),
                    )
                } else {
                    (GenerationState { phase: GenerationPhase::AwaitContext, ..s }, GenerationAction::LoadContext)
                }
            } else {
                (GenerationState { phase: GenerationPhase::Done, ..s }, GenerationAction::Finish(Err(unexpected())))
            }
        },
        GenerationEvent::ContextLoaded { existing } => {
            if phase == GenerationPhase::AwaitContext {
                let docs = documents_before_generation(s.livrables, existing);
                (
                    GenerationState { phase: GenerationPhase::AwaitGeneratingWrite, ..s },
                    GenerationAction::WriteGenerating(docs),
                )
            } else {
                (GenerationState { phase: GenerationPhase::Done, ..s }, GenerationAction::Finish(Err(unexpected())))
            }
        },
        GenerationEvent::Written => {
            if phase == GenerationPhase::AwaitGeneratingWrite {
                (GenerationState { phase: GenerationPhase::AwaitSteps, ..s }, GenerationAction::RunSteps)
            } else if phase == GenerationPhase::AwaitReadyWrite {
                (GenerationState { phase: GenerationPhase::Done, ..s }, GenerationAction::Finish(Ok(())))
            } else if phase == GenerationPhase::AwaitFailedWrite {
                let err = match s.error {
                    Some(x) => x,
                    None => unexpected(),
                };
                (GenerationState { phase: GenerationPhase::Done, error: None, ..s }, GenerationAction::Finish(Err(err)))
            } else {
                (GenerationState { phase: GenerationPhase::Done, ..s }, GenerationAction::Finish(Err(unexpected())))
            }
        },
        GenerationEvent::StepsDone { produced, cover_complete } => {
            if phase == GenerationPhase::AwaitSteps {
                match check_outputs(produced.1.as_ref(), cover_complete) {
                    Err(e) => fail(s, e),
                    Ok(()) => (
                        GenerationState { phase: GenerationPhase::AwaitReload, produced: Some(produced), ..s },
                        GenerationAction::Reload,
                    ),
                }
            } else {
                (GenerationState { phase: GenerationPhase::Done, ..s }, GenerationAction::Finish(Err(unexpected())))
            }
        },
        GenerationEvent::Reloaded(found) => {
            if phase == GenerationPhase::AwaitReload {
                match found {
                    Some(d) => match s.produced {
                        Some(p) => {
                            let mut docs = d;
                            merge_generated_outputs(&mut docs, p.0, p.1, p.2);
                            (
                                GenerationState { phase: GenerationPhase::AwaitReadyWrite, produced: None, ..s },
                                GenerationAction::WriteReady(docs),
                            )
                        },
                        None => fail(GenerationState { produced: None, ..s }, unexpected()),
                    },
                    None => fail(s, GenerateError::App(AppError::Other("Instance introuvable après génération".to_owned()))),
                }
            } else {
                (GenerationState { phase: GenerationPhase::Done, ..s }, GenerationAction::Finish(Err(unexpected())))
            }
        },
        GenerationEvent::Failed(e) => {
            if phase == GenerationPhase::AwaitContext || phase == GenerationPhase::AwaitGeneratingWrite {
                (GenerationState { phase: GenerationPhase::Done, ..s }, GenerationAction::Finish(Err(e)))
            } else if phase == GenerationPhase::AwaitSteps || phase == GenerationPhase::AwaitReload || phase
                == GenerationPhase::AwaitReadyWrite {
                fail(s, e)
            } else if phase == GenerationPhase::AwaitFailedWrite {
                let err = match s.error {
                    Some(x) => x,
                    None => unexpected(),
                };
                (GenerationState { phase: GenerationPhase::Done, error: None, ..s }, GenerationAction::Finish(Err(err)))
            } else {
                (GenerationState { phase: GenerationPhase::Done, ..s }, GenerationAction::Finish(Err(unexpected())))
            }
        },
    }
}

/// A request for no document is refused at once, before anything is read
/// or written.
pub proof fn lemma_no_deliverable_is_refused_first(l: Livrables)
    requires
        !l.restitution && !l.resume && !l.cover_letter,
    ensures
        generation_step_model(
            GenerationStateModel { phase: GenerationPhase::Start, livrables: l, produced: None, error: None },
            GenerationEventModel::Begin,
        ).1 == GenerationActionModel::Finish(Err(GenerateErrorModel::AucunLivrable)),
{
}

/// Once the application is marked generating, a failure of any later step
/// marks it failed, and that failure is then what the generation reports.
pub proof fn lemma_failure_after_generating_marks_failed(s: GenerationStateModel, e: GenerateErrorModel)
    requires
        s.phase == GenerationPhase::AwaitSteps || s.phase == GenerationPhase::AwaitReload || s.phase
            == GenerationPhase::AwaitReadyWrite,
    ensures
        generation_step_model(s, GenerationEventModel::Failed(e)).1 == GenerationActionModel::WriteFailed,
        generation_step_model(generation_step_model(s, GenerationEventModel::Failed(e)).0, GenerationEventModel::Written).1
            == GenerationActionModel::Finish(Err(e)),
{
}

/// Success stores the documents read back with the new ones merged in
/// (see `merged_documents`), with status Ready, and then ends well.
pub proof fn lemma_success_writes_merged_documents(s: GenerationStateModel, d: Documents, p: Produced)
    requires
        s.phase == GenerationPhase::AwaitReload,
        s.produced == Some(p),
    ensures
        generation_step_model(s, GenerationEventModel::Reloaded(Some(d))).1 == GenerationActionModel::WriteReady(
            merged_documents(d, p.0, p.1, p.2),
        ),
        generation_step_model(generation_step_model(s, GenerationEventModel::Reloaded(Some(d))).0, GenerationEventModel::Written).1
            == GenerationActionModel::Finish(Ok::<(), GenerateErrorModel>(())),
{
}

} // verus!
