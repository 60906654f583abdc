//! What becomes of one item of an ingestion request, one step at a time:
//! the item goes through the intake, then, when documents are asked for,
//! each new offer's application is read back and generated; the first
//! failure ends the item with what was recorded so far.

use vstd::prelude::*;
use crate::errors::{app_error_text, AppError};
use crate::ingest::{should_generate, IngestConfig, IngestedItem, ItemFailure, ItemOutcome};
use crate::intake::{IntakeExecutionResult, IntakeOutput};
use crate::text::{chars_of, push_all, string_of};

verus! {

/// Where an item stands.
#[derive(Clone, Copy, Debug, PartialEq, Eq, Structural)]
pub enum ItemPhase {
    Start,
    AwaitIntake,
    AwaitInstance,
    AwaitGeneration,
    Done,
}

/// The state of an item.
pub struct ItemState {
    pub phase: ItemPhase,
    pub input: String,
    /// Documents are to be generated for new offers.
    pub generate: bool,
    /// A generation configuration was given.
    pub has_config: bool,
    /// Offers of the intake not reported yet; the first is the one in hand.
    pub outputs: Vec<IntakeOutput>,
    pub results: Vec<IngestedItem>,
    pub ignored: usize,
}

/// What came of the last action.
pub enum ItemEvent {
    Begin,
    /// The intake of the item finished.
    IntakeDone(Result<IntakeExecutionResult, AppError>),
    /// The new offer's application was read back: found or not, or the
    /// store's error text.
    InstanceFound(Result<bool, String>),
    /// The generation finished, or failed with this text.
    Generated(Result<(), String>),
}

/// What to do next.
pub enum ItemAction {
    /// Run the intake of this input.
    RunIntake { input: String },
    /// Read back the application with this id.
    LoadInstance { instance_id: String },
    /// Generate the documents of the application with this id.
    Generate { instance_id: String },
    /// The item is over.
    Done(ItemOutcome),
}

pub struct ItemStateModel {
    pub phase: ItemPhase,
    pub input: Seq<char>,
    pub generate: bool,
    pub has_config: bool,
    pub outputs: Seq<IntakeOutput>,
    pub results: Seq<IngestedItem>,
    pub ignored: nat,
}

pub enum ItemEventModel {
    Begin,
    IntakeDone(Result<(Seq<IntakeOutput>, nat), Seq<char>>),
    InstanceFound(Result<bool, Seq<char>>),
    Generated(Result<(), Seq<char>>),
}

pub enum ItemActionModel {
    RunIntake(Seq<char>),
    LoadInstance(Seq<char>),
    Generate(Seq<char>),
    /// Results, ignored count, and the failure (input and reason) if any.
    Done(Seq<IngestedItem>, nat, Option<(Seq<char>, Seq<char>)>),
}

impl ItemState {
    pub open spec fn model(&self) -> ItemStateModel {
        ItemStateModel {
            phase: self.phase,
            input: self.input@,
            generate: self.generate,
            has_config: self.has_config,
            outputs: self.outputs@,
            results: self.results@,
            ignored: self.ignored as nat,
        }
    }

    /// An item about to be ingested with the request's configuration.
    pub fn new(input: String, config: Option<&IngestConfig>) -> (r: ItemState)
        ensures
            r.model() == (ItemStateModel {
                phase: ItemPhase::Start,
                input: input@,
                generate: config matches Some(c) && (c.restitution || c.resume || c.cover),
                has_config: config is Some,
                outputs: seq![],
                results: seq![],
                ignored: 0,
            }),
    {
        let r = ItemState {
            phase: ItemPhase::Start,
            input,
            generate: should_generate(config),
            has_config: config.is_some(),
            outputs: Vec::new(),
            results: Vec::new(),
            ignored: 0,
        };
        assert(r.outputs@ =~= seq![]);
        assert(r.results@ =~= seq![]);
        r
    }
}

impl ItemEvent {
    pub open spec fn model(&self) -> ItemEventModel {
        match self {
            ItemEvent::Begin => ItemEventModel::Begin,
            ItemEvent::IntakeDone(Ok(x)) => ItemEventModel::IntakeDone(Ok((x.outputs@, x.ignored_count as nat))),
            ItemEvent::IntakeDone(Err(e)) => ItemEventModel::IntakeDone(Err(app_error_text(*e))),
            ItemEvent::InstanceFound(Ok(b)) => ItemEventModel::InstanceFound(Ok(*b)),
            ItemEvent::InstanceFound(Err(m)) => ItemEventModel::InstanceFound(Err(m@)),
            ItemEvent::Generated(Ok(())) => ItemEventModel::Generated(Ok(())),
            ItemEvent::Generated(Err(m)) => ItemEventModel::Generated(Err(m@)),
        }
    }
}

impl ItemAction {
    pub open spec fn model(&self) -> ItemActionModel {
        match self {
            ItemAction::RunIntake { input } => ItemActionModel::RunIntake(input@),
            ItemAction::LoadInstance { instance_id } => ItemActionModel::LoadInstance(instance_id@),
            ItemAction::Generate { instance_id } => ItemActionModel::Generate(instance_id@),
            ItemAction::Done(o) => ItemActionModel::Done(
                o.results@,
                o.ignored_count as nat,
                match o.error {
                    Some(f) => Some((f.input@, f.error@)),
                    None => None,
                },
            ),
        }
    }
}

/// What is reported of an offer of the intake.
pub open spec fn reported(o: IntakeOutput) -> IngestedItem {
    IngestedItem { offer_slug: o.offre_slug, instance_slug: o.instance_slug, duplicate: o.was_duplicate }
}

/// The item ends with what was recorded and this failure.
pub open spec fn failed_model(s: ItemStateModel, reason: Seq<char>) -> (ItemStateModel, ItemActionModel) {
    (
        ItemStateModel { phase: ItemPhase::Done, results: seq![], ..s },
        ItemActionModel::Done(s.results, s.ignored, Some((s.input, reason))),
    )
}

/// Takes up the next offer of the intake: a new offer, when documents are
/// asked for, has its application read back (or the item fails without a
/// configuration); any other is reported at once.
pub open spec fn item_next_model(s: ItemStateModel) -> (ItemStateModel, ItemActionModel)
    decreases s.outputs.len(),
{
    if s.outputs.len() == 0 {
        (ItemStateModel { phase: ItemPhase::Done, results: seq![], ..s }, ItemActionModel::Done(s.results, s.ignored, None))
    } else {
        let o = s.outputs[0];
        if !o.was_duplicate && s.generate {
            if !s.has_config {
                failed_model(s, "Configuration de génération absente"@)
            } else {
                (ItemStateModel { phase: ItemPhase::AwaitInstance, ..s }, ItemActionModel::LoadInstance(o.instance_id@))
            }
        } else {
            item_next_model(ItemStateModel { outputs: s.outputs.drop_first(), results: s.results.push(reported(o)), ..s })
        }
    }
}

/// One step of an item.
pub open spec fn item_step_model(s: ItemStateModel, e: ItemEventModel) -> (ItemStateModel, ItemActionModel) {
    match (s.phase, e) {
        (ItemPhase::Start, ItemEventModel::Begin) => (
            ItemStateModel { phase: ItemPhase::AwaitIntake, ..s },
            ItemActionModel::RunIntake(s.input),
        ),
        (ItemPhase::AwaitIntake, ItemEventModel::IntakeDone(Ok((outs, ignored)))) => item_next_model(
            ItemStateModel { outputs: outs, ignored, ..s },
        ),
        (ItemPhase::AwaitIntake, ItemEventModel::IntakeDone(Err(m))) => (
            ItemStateModel { phase: ItemPhase::Done, ..s },
            ItemActionModel::Done(seq![], 0, Some((s.input, m))),
        ),
        (ItemPhase::AwaitInstance, ItemEventModel::InstanceFound(Ok(true))) if s.outputs.len() > 0 => (
            ItemStateModel { phase: ItemPhase::AwaitGeneration, ..s },
            ItemActionModel::Generate(s.outputs[0].instance_id@),
        ),
        (ItemPhase::AwaitInstance, ItemEventModel::InstanceFound(Ok(false))) => failed_model(
            s,
            "Instance introuvable juste après ingestion"@,
        ),
        (ItemPhase::AwaitInstance, ItemEventModel::InstanceFound(Err(m))) => failed_model(s, "Erreur DB instance: "@ + m),
        (ItemPhase::AwaitGeneration, ItemEventModel::Generated(Ok(()))) if s.outputs.len() > 0 => item_next_model(
            ItemStateModel { outputs: s.outputs.drop_first(), results: s.results.push(reported(s.outputs[0])), ..s },
        ),
        (ItemPhase::AwaitGeneration, ItemEventModel::Generated(Err(m))) => failed_model(s, "Erreur de génération : "@ + m),
        _ => failed_model(s, "événement inattendu"@),
    }
}

fn failed(s: ItemState, reason: String) -> (r: (ItemState, ItemAction))
    ensures
        (r.0.model(), r.1.model()) == failed_model(s.model(), reason@),
{
    let input = s.input.clone();
    let ignored = s.ignored;
    let results = s.results;
    let st = ItemState { phase: ItemPhase::Done, results: Vec::new(), ..s };
    assert(st.results@ =~= seq![]);
    (st, ItemAction::Done(ItemOutcome { results, ignored_count: ignored, error: Some(ItemFailure { input, error: reason }) }))
}

fn prefixed(p: &str, m: &str) -> (r: String)
    ensures
        r@ == p@ + m@,
{
    let mut v = chars_of(p);
    let w = chars_of(m);
    push_all(&mut v, &w);
    string_of(&v)
}

fn item_next(s: ItemState) -> (r: (ItemState, ItemAction))
    ensures
        (r.0.model(), r.1.model()) == item_next_model(s.model()),
    decreases s.outputs@.len(),
{
    if s.outputs.len() == 0 {
        let ignored = s.ignored;
        let results = s.results;
        let st = ItemState { phase: ItemPhase::Done, results: Vec::new(), ..s };
        assert(st.results@ =~= seq![]);
        return (st, ItemAction::Done(ItemOutcome { results, ignored_count: ignored, error: None }));
    }
    let fresh = !s.outputs[0].was_duplicate && s.generate;
    if fresh {
        if !s.has_config {
            return failed(s, "Configuration de génération absente".to_owned());
        }
        let id = s.outputs[0].instance_id.clone();
        (ItemState { phase: ItemPhase::AwaitInstance, ..s }, ItemAction::LoadInstance { instance_id: id })
    } else {
        let mut s = s;
        let ghost before = s.model();
        let o = s.outputs.remove(0);
        s.results.push(IngestedItem { offer_slug: o.offre_slug, instance_slug: o.instance_slug, duplicate: o.was_duplicate });
        assert(s.model() == (ItemStateModel {
            outputs: before.outputs.drop_first(),
            results: before.results.push(reported(before.outputs[0])),
            ..before
        }));
        item_next(s)
    }
}

/// One step of an item (see `item_step_model`).
pub fn item_step(state: ItemState, event: ItemEvent) -> (r: (ItemState, ItemAction))
    ensures
        (r.0.model(), r.1.model()) == item_step_model(state.model(), event.model()),
{
    let s = state;
    let phase = s.phase;
    match event {
        ItemEvent::Begin => {
            if phase == ItemPhase::Start {
                let input = s.input.clone();
                (ItemState { phase: ItemPhase::AwaitIntake, ..s }, ItemAction::RunIntake { input })
            } else {
                failed(s, "événement inattendu".to_owned())
            }
        },
        ItemEvent::IntakeDone(res) => {
            if phase != ItemPhase::AwaitIntake {
                return failed(s, "événement inattendu".to_owned());
            }
            match res {
                Ok(x) => item_next(ItemState { outputs: x.outputs, ignored: x.ignored_count, ..s }),
                Err(e) => {
                    let input = s.input.clone();
                    let error = e.message();
                    let empty: Vec<IngestedItem> = Vec::new();
                    assert(empty@ =~= seq![]);
                    (
                        ItemState { phase: ItemPhase::Done, ..s },
                        ItemAction::Done(ItemOutcome { results: empty, ignored_count: 0, error: Some(ItemFailure { input, error }) }),
                    )
                },
            }
        },
        ItemEvent::InstanceFound(res) => {
            if phase != ItemPhase::AwaitInstance {
                return failed(s, "événement inattendu".to_owned());
            }
            match res {
                Ok(true) => {
                    if s.outputs.len() == 0 {
                        return failed(s, "événement inattendu".to_owned());
                    }
                    let id = s.outputs[0].instance_id.clone();
                    (ItemState { phase: ItemPhase::AwaitGeneration, ..s }, ItemAction::Generate { instance_id: id })
                },
                Ok(false) => failed(s, "Instance introuvable juste après ingestion".to_owned()),
                Err(m) => failed(s, prefixed("Erreur DB instance: ", m.as_str())),
            }
        },
        ItemEvent::Generated(res) => {
            if phase != ItemPhase::AwaitGeneration {
                return failed(s, "événement inattendu".to_owned());
            }
            match res {
                Ok(()) => {
                    if s.outputs.len() == 0 {
                        return failed(s, "événement inattendu".to_owned());
                    }
                    let mut s = s;
                    let ghost before = s.model();
                    let o = s.outputs.remove(0);
                    s.results.push(
                        IngestedItem { offer_slug: o.offre_slug, instance_slug: o.instance_slug, duplicate: o.was_duplicate },
                    );
                    assert(s.model() == (ItemStateModel {
                        outputs: before.outputs.drop_first(),
                        results: before.results.push(reported(before.outputs[0])),
                        ..before
                    }));
                    item_next(s)
                },
                Err(m) => failed(s, prefixed("Erreur de génération : ", m.as_str())),
            }
        },
    }
}

/// Documents are generated only for new offers: a duplicate is reported at
/// once, and a new offer is reported only after its generation succeeded.
pub proof fn lemma_only_new_offers_are_generated(s: ItemStateModel)
    requires
        s.outputs.len() > 0,
        s.outputs[0].was_duplicate || !s.generate,
    ensures
        item_next_model(s) == item_next_model(
            ItemStateModel { outputs: s.outputs.drop_first(), results: s.results.push(reported(s.outputs[0])), ..s },
        ),
{
}

} // verus!
