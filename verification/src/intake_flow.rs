//! The decisions of an intake, one step at a time: the caller performs each
//! action (a lookup, the model's extraction, a write) and hands back what
//! came of it. An offer already known by its address, its content hash or
//! its slug is answered as a duplicate and never stored again; at most
//! `MAX_EXTRACTED_OFFRES_PER_INPUT` extracted offers are handled.

use vstd::prelude::*;
use crate::errors::AppError;
use crate::intake::{
    build_offre_slug_with, cap_items, fingerprint, finish_intake, is_url, looks_like_url, offer_fingerprint,
    offre_slug_or, sha256_digest, url_host_of, Deduplicator, IntakeExecutionResult, IntakeOutput, Offre,
    OffreStructured, MAX_EXTRACTED_OFFRES_PER_INPUT,
};
use crate::text::starts_with;

verus! {

/// One offer as extracted: title, company, location, contract, analysis.
pub type Extracted = (String, String, Option<String>, Option<String>, OffreStructured);

/// An offer already stored, by its id and slug.
#[derive(Clone, Debug, PartialEq, Eq)]
pub struct FoundOffre {
    pub id: String,
    pub slug: String,
}

/// An application already stored, by its id and slug.
#[derive(Clone, Debug, PartialEq, Eq)]
pub struct FoundInstance {
    pub id: String,
    pub slug: String,
}

/// Where an intake stands.
#[derive(Clone, Copy, Debug, PartialEq, Eq, Structural)]
pub enum IntakePhase {
    Start,
    AwaitUrl,
    AwaitExtraction,
    AwaitHash,
    AwaitSlug,
    AwaitPersist,
    AwaitInstance,
    AwaitDraft,
    Done,
}

/// The state of an intake.
pub struct IntakeState {
    pub phase: IntakePhase,
    pub raw_text: String,
    pub source_url: String,
    pub host: String,
    /// Extracted offers not taken up yet.
    pub pending: Vec<Extracted>,
    /// The extracted offer in hand, until it is stored.
    pub current: Option<Extracted>,
    /// How many extracted offers were left out for being beyond the cap.
    pub dropped: usize,
    /// Content hash of the offer in hand.
    pub hash: Vec<u8>,
    /// Id and slug of the offer in hand (once known or stored).
    pub offre_id: String,
    pub slug: String,
    /// The offer in hand was found by the input's address.
    pub from_url: bool,
    pub outputs: Vec<IntakeOutput>,
}

/// What came of the last action.
pub enum IntakeEvent {
    /// The intake starts.
    Begin,
    /// The offer stored under the input's address, if any.
    UrlLookup(Option<FoundOffre>),
    /// The offers the model extracted from the text.
    Extracted(Vec<Extracted>),
    /// The offer stored with the content hash, if any; `fresh_id` stands in
    /// for a slug that would come out empty.
    HashLookup { found: Option<FoundOffre>, fresh_id: String },
    /// The offer stored under the slug, if any.
    SlugLookup(Option<FoundOffre>),
    /// The new offer was stored under this id.
    Persisted { offre_id: String },
    /// The application of the offer in hand for the profile, if any.
    InstanceLookup(Option<FoundInstance>),
    /// A draft application was created.
    DraftCreated(FoundInstance),
    /// The last action failed.
    Failed(AppError),
}

/// What to do next.
pub enum IntakeAction {
    /// Look up the offer stored under this address.
    FindByUrl { url: String },
    /// Have the model extract the offers of this text.
    Extract { text: String },
    /// Look up the offer stored from this host with this content hash.
    FindByHash { host: String, hash: Vec<u8> },
    /// Look up the offer stored under this slug.
    FindBySlug { slug: String },
    /// Store this new offer, with its content hash.
    Persist { offre: Offre, hash: Vec<u8> },
    /// Look up the profile's application for this offer.
    FindInstance { offre_id: String },
    /// Create a draft application for this offer.
    CreateDraft { offre_id: String, slug: String },
    /// The intake is over, with this outcome.
    Finish(Result<IntakeExecutionResult, AppError>),
}

/// The state of an intake, as values.
pub struct IntakeStateModel {
    pub phase: IntakePhase,
    pub raw_text: Seq<char>,
    pub source_url: Seq<char>,
    pub host: Seq<char>,
    pub pending: Seq<Extracted>,
    pub current: Option<Extracted>,
    pub dropped: nat,
    pub hash: Seq<u8>,
    pub offre_id: Seq<char>,
    pub slug: Seq<char>,
    pub from_url: bool,
    pub outputs: Seq<(Seq<char>, Seq<char>, Seq<char>, bool)>,
}

/// An offer found, as values.
pub open spec fn found_model(o: FoundOffre) -> (Seq<char>, Seq<char>) {
    (o.id@, o.slug@)
}

/// What came of an action, as values.
pub enum IntakeEventModel {
    Begin,
    UrlLookup(Option<(Seq<char>, Seq<char>)>),
    Extracted(Seq<Extracted>),
    HashLookup(Option<(Seq<char>, Seq<char>)>, Seq<char>),
    SlugLookup(Option<(Seq<char>, Seq<char>)>),
    Persisted(Seq<char>),
    InstanceLookup(Option<(Seq<char>, Seq<char>)>),
    DraftCreated(Seq<char>, Seq<char>),
    Failed(AppErrorModel),
}

/// A use-case failure, as values.
pub enum AppErrorModel {
    Repo(Seq<char>),
    NotFound,
    Validation(Seq<char>),
    Other(Seq<char>),
}

pub open spec fn app_error_model(e: AppError) -> AppErrorModel {
    match e {
        AppError::Repo(m) => AppErrorModel::Repo(m@),
        AppError::NotFound => AppErrorModel::NotFound,
        AppError::Validation(m) => AppErrorModel::Validation(m@),
        AppError::Other(m) => AppErrorModel::Other(m@),
    }
}

/// The outcome of an intake, as values.
pub enum IntakeOutcomeModel {
    Done(Seq<(Seq<char>, Seq<char>, Seq<char>, bool)>, nat),
    Refused(AppErrorModel),
}

/// What to do next, as values.
pub enum IntakeActionModel {
    FindByUrl(Seq<char>),
    Extract(Seq<char>),
    FindByHash(Seq<char>, Seq<u8>),
    FindBySlug(Seq<char>),
    /// The slug, the content hash, the address, the host, the text and the
    /// extracted fields of the new offer.
    Persist(Seq<char>, Seq<u8>, Seq<char>, Seq<char>, Seq<char>, Extracted),
    FindInstance(Seq<char>),
    CreateDraft(Seq<char>, Seq<char>),
    Finish(IntakeOutcomeModel),
}

/// One intake output, as values.
pub open spec fn output_model(o: IntakeOutput) -> (Seq<char>, Seq<char>, Seq<char>, bool) {
    (o.offre_slug@, o.instance_id@, o.instance_slug@, o.was_duplicate)
}

impl IntakeState {
    pub open spec fn model(&self) -> IntakeStateModel {
        IntakeStateModel {
            phase: self.phase,
            raw_text: self.raw_text@,
            source_url: self.source_url@,
            host: self.host@,
            pending: self.pending@,
            current: self.current,
            dropped: self.dropped as nat,
            hash: self.hash@,
            offre_id: self.offre_id@,
            slug: self.slug@,
            from_url: self.from_url,
            outputs: self.outputs@.map_values(|o: IntakeOutput| output_model(o)),
        }
    }

    /// An intake of `raw_text`, read from `source_url`, about to begin.
    pub fn new(raw_text: String, source_url: String) -> (r: IntakeState)
        ensures
            r.model() == start_model(raw_text@, source_url@),
    {
        let r = IntakeState {
            phase: IntakePhase::Start,
            raw_text,
            source_url,
            host: String::new(),
            pending: Vec::new(),
            current: None,
            dropped: 0,
            hash: Vec::new(),
            offre_id: String::new(),
            slug: String::new(),
            from_url: false,
            outputs: Vec::new(),
        };
        assert(r.model() == start_model(r.raw_text@, r.source_url@)) by {
            assert(r.outputs@.map_values(|o: IntakeOutput| output_model(o)) =~= seq![]);
            assert(r.pending@ =~= seq![]);
            assert(r.hash@ =~= seq![]);
            assert(r.host@ =~= seq![]);
            assert(r.slug@ =~= seq![]);
            assert(r.offre_id@ =~= seq![]);
        }
        r
    }
}

/// An intake about to begin.
pub open spec fn start_model(raw_text: Seq<char>, source_url: Seq<char>) -> IntakeStateModel {
    IntakeStateModel {
        phase: IntakePhase::Start,
        raw_text,
        source_url,
        host: seq![],
        pending: seq![],
        current: None,
        dropped: 0,
        hash: seq![],
        offre_id: seq![],
        slug: seq![],
        from_url: false,
        outputs: seq![],
    }
}

impl IntakeEvent {
    pub open spec fn model(&self) -> IntakeEventModel {
        match self {
            IntakeEvent::Begin => IntakeEventModel::Begin,
            IntakeEvent::UrlLookup(f) => IntakeEventModel::UrlLookup(opt_found(*f)),
            IntakeEvent::Extracted(v) => IntakeEventModel::Extracted(v@),
            IntakeEvent::HashLookup { found, fresh_id } => IntakeEventModel::HashLookup(opt_found(*found), fresh_id@),
            IntakeEvent::SlugLookup(f) => IntakeEventModel::SlugLookup(opt_found(*f)),
            IntakeEvent::Persisted { offre_id } => IntakeEventModel::Persisted(offre_id@),
            IntakeEvent::InstanceLookup(f) => IntakeEventModel::InstanceLookup(
                match f {
                    Some(i) => Some((i.id@, i.slug@)),
                    None => None,
                },
            ),
            IntakeEvent::DraftCreated(i) => IntakeEventModel::DraftCreated(i.id@, i.slug@),
            IntakeEvent::Failed(e) => IntakeEventModel::Failed(app_error_model(*e)),
        }
    }
}

pub open spec fn opt_found(f: Option<FoundOffre>) -> Option<(Seq<char>, Seq<char>)> {
    match f {
        Some(o) => Some(found_model(o)),
        None => None,
    }
}

impl IntakeAction {
    pub open spec fn model(&self) -> IntakeActionModel {
        match self {
            IntakeAction::FindByUrl { url } => IntakeActionModel::FindByUrl(url@),
            IntakeAction::Extract { text } => IntakeActionModel::Extract(text@),
            IntakeAction::FindByHash { host, hash } => IntakeActionModel::FindByHash(host@, hash@),
            IntakeAction::FindBySlug { slug } => IntakeActionModel::FindBySlug(slug@),
            IntakeAction::Persist { offre, hash } => IntakeActionModel::Persist(
                offre.slug@,
                hash@,
                offre.source_url@,
                offre.source_host@,
                offre.raw_text@,
                (offre.intitule, offre.entreprise, offre.localisation, offre.contrat, offre.structured),
            ),
            IntakeAction::FindInstance { offre_id } => IntakeActionModel::FindInstance(offre_id@),
            IntakeAction::CreateDraft { offre_id, slug } => IntakeActionModel::CreateDraft(offre_id@, slug@),
            IntakeAction::Finish(r) => IntakeActionModel::Finish(
                match r {
                    Ok(x) => IntakeOutcomeModel::Done(
                        x.outputs@.map_values(|o: IntakeOutput| output_model(o)),
                        x.ignored_count as nat,
                    ),
                    Err(e) => IntakeOutcomeModel::Refused(app_error_model(*e)),
                },
            ),
        }
    }
}

/// The host an offer is filed under: the URL's host for an `http…` source
/// (`external` when it has none), `manual` for pasted text.
pub open spec fn source_host_model(url: Seq<char>) -> Seq<char> {
    if starts_with(url, "http"@) {
        match url_host_of(url) {
            Some(h) => h,
            None => "external"@,
        }
    } else {
        "manual"@
    }
}

/// The content hash of an extracted offer of `raw_text`.
pub open spec fn offer_hash(raw_text: Seq<char>, e: Extracted) -> Seq<u8> {
    sha256_digest(vstd::utf8::encode_utf8(fingerprint(raw_text, e.0@, e.1@)))
}

/// The outcome of an intake once every offer is handled.
pub open spec fn finish_model(outputs: Seq<(Seq<char>, Seq<char>, Seq<char>, bool)>, dropped: nat) -> IntakeOutcomeModel {
    if outputs.len() == 0 {
        IntakeOutcomeModel::Refused(AppErrorModel::Validation("Aucune offre n'a pu être extraite"@))
    } else {
        IntakeOutcomeModel::Done(outputs, dropped)
    }
}

/// Turns to the next pending offer: its content hash is looked up, or the
/// intake finishes when none is left.
pub open spec fn next_offer_model(s: IntakeStateModel) -> (IntakeStateModel, IntakeActionModel) {
    if s.pending.len() == 0 {
        (
            IntakeStateModel { phase: IntakePhase::Done, outputs: seq![], ..s },
            IntakeActionModel::Finish(finish_model(s.outputs, s.dropped)),
        )
    } else {
        let h = offer_hash(s.raw_text, s.pending[0]);
        (
            IntakeStateModel {
                phase: IntakePhase::AwaitHash,
                hash: h,
                from_url: false,
                current: Some(s.pending[0]),
                pending: s.pending.drop_first(),
                ..s
            },
            IntakeActionModel::FindByHash(s.host, h),
        )
    }
}

/// Records the output for the offer in hand: an offer found by address
/// ends the intake with it alone; otherwise the next offer is taken.
pub open spec fn record_model(s: IntakeStateModel, out: (Seq<char>, Seq<char>, Seq<char>, bool)) -> (
    IntakeStateModel,
    IntakeActionModel,
) {
    if s.from_url {
        (
            IntakeStateModel { phase: IntakePhase::Done, ..s },
            IntakeActionModel::Finish(IntakeOutcomeModel::Done(seq![out], 0)),
        )
    } else {
        next_offer_model(IntakeStateModel { outputs: s.outputs.push(out), current: None, ..s })
    }
}

/// The refusal of an event that does not fit the phase.
pub open spec fn unexpected_message() -> Seq<char> {
    "événement inattendu"@
}

/// One step of an intake.
pub open spec fn intake_step_model(s: IntakeStateModel, e: IntakeEventModel) -> (IntakeStateModel, IntakeActionModel) {
    match e {
        IntakeEventModel::Failed(err) => (
            IntakeStateModel { phase: IntakePhase::Done, ..s },
            IntakeActionModel::Finish(IntakeOutcomeModel::Refused(err)),
        ),
        _ => match (s.phase, e) {
            (IntakePhase::Start, IntakeEventModel::Begin) => {
                let h = source_host_model(s.source_url);
                if is_url(s.source_url) {
                    (
                        IntakeStateModel { phase: IntakePhase::AwaitUrl, host: h, ..s },
                        IntakeActionModel::FindByUrl(s.source_url),
                    )
                } else {
                    (
                        IntakeStateModel { phase: IntakePhase::AwaitExtraction, host: h, ..s },
                        IntakeActionModel::Extract(s.raw_text),
                    )
                }
            },
            (IntakePhase::AwaitUrl, IntakeEventModel::UrlLookup(Some(o))) => (
                IntakeStateModel { phase: IntakePhase::AwaitInstance, offre_id: o.0, slug: o.1, from_url: true, ..s },
                IntakeActionModel::FindInstance(o.0),
            ),
            (IntakePhase::AwaitUrl, IntakeEventModel::UrlLookup(None)) => (
                IntakeStateModel { phase: IntakePhase::AwaitExtraction, ..s },
                IntakeActionModel::Extract(s.raw_text),
            ),
            (IntakePhase::AwaitExtraction, IntakeEventModel::Extracted(v)) => {
                let max = MAX_EXTRACTED_OFFRES_PER_INPUT as nat;
                let kept = if v.len() <= max { v } else { v.subrange(0, max as int) };
                let dropped: nat = if v.len() <= max { 0 } else { (v.len() - max) as nat };
                next_offer_model(IntakeStateModel { pending: kept, dropped, ..s })
            },
            (IntakePhase::AwaitHash, IntakeEventModel::HashLookup(Some(o), _)) => (
                IntakeStateModel { phase: IntakePhase::AwaitInstance, offre_id: o.0, slug: o.1, ..s },
                IntakeActionModel::FindInstance(o.0),
            ),
            (IntakePhase::AwaitHash, IntakeEventModel::HashLookup(None, fresh)) if s.current is Some => {
                let c = s.current->Some_0;
                let slug = offre_slug_or(c.1@, c.0@, fresh);
                (IntakeStateModel { phase: IntakePhase::AwaitSlug, slug, ..s }, IntakeActionModel::FindBySlug(slug))
            },
            (IntakePhase::AwaitSlug, IntakeEventModel::SlugLookup(Some(o))) => (
                IntakeStateModel { phase: IntakePhase::AwaitInstance, offre_id: o.0, slug: o.1, ..s },
                IntakeActionModel::FindInstance(o.0),
            ),
            (IntakePhase::AwaitSlug, IntakeEventModel::SlugLookup(None)) if s.current is Some => (
                IntakeStateModel { phase: IntakePhase::AwaitPersist, current: None, ..s },
                IntakeActionModel::Persist(s.slug, s.hash, s.source_url, s.host, s.raw_text, s.current->Some_0),
            ),
            (IntakePhase::AwaitPersist, IntakeEventModel::Persisted(id)) => (
                IntakeStateModel { phase: IntakePhase::AwaitDraft, offre_id: id, ..s },
                IntakeActionModel::CreateDraft(id, s.slug),
            ),
            (IntakePhase::AwaitInstance, IntakeEventModel::InstanceLookup(Some(i))) => record_model(
                s,
                (s.slug, i.0, i.1, true),
            ),
            (IntakePhase::AwaitInstance, IntakeEventModel::InstanceLookup(None)) => (
                IntakeStateModel { phase: IntakePhase::AwaitDraft, ..s },
                IntakeActionModel::CreateDraft(s.offre_id, s.slug),
            ),
            (IntakePhase::AwaitDraft, IntakeEventModel::DraftCreated(id, slug)) => record_model(
                s,
                (s.slug, id, slug, false),
            ),
            _ => (
                IntakeStateModel { phase: IntakePhase::Done, ..s },
                IntakeActionModel::Finish(IntakeOutcomeModel::Refused(AppErrorModel::Other(unexpected_message()))),
            ),
        },
    }
}


fn copy_bytes(v: &Vec<u8>) -> (r: Vec<u8>)
    ensures
        r@ == v@,
{
    let mut out: Vec<u8> = Vec::new();
    let mut i: usize = 0;
    while i < v.len()
        invariant
            i <= v.len(),
            out@ =~= v@.subrange(0, i as int),
        decreases v.len() - i,
    {
        out.push(v[i]);
        i = i + 1;
    }
    out
}

fn unexpected(s: IntakeState) -> (r: (IntakeState, IntakeAction))
    ensures
        r.0.model() == (IntakeStateModel { phase: IntakePhase::Done, ..s.model() }),
        r.1.model() == IntakeActionModel::Finish(IntakeOutcomeModel::Refused(AppErrorModel::Other(unexpected_message()))),
{
    (IntakeState { phase: IntakePhase::Done, ..s }, IntakeAction::Finish(Err(AppError::Other("événement inattendu".to_owned()))))
}

fn next_offer(s: IntakeState) -> (r: (IntakeState, IntakeAction))
    ensures
        (r.0.model(), r.1.model()) == next_offer_model(s.model()),
{
    let mut s = s;
    if s.pending.len() == 0 {
        let outputs = s.outputs;
        let ghost om = outputs@.map_values(|o: IntakeOutput| output_model(o));
        let res = finish_intake(outputs, s.dropped);
        let st = IntakeState { phase: IntakePhase::Done, outputs: Vec::new(), ..s };
        assert(st.outputs@.map_values(|o: IntakeOutput| output_model(o)) =~= seq![]);
        (st, IntakeAction::Finish(res))
    } else {
        let ghost p0 = s.pending@;
        let c = s.pending.remove(0);
        assert(s.pending@ =~= p0.drop_first());
        let fp = offer_fingerprint(s.raw_text.as_str(), c.0.as_str(), c.1.as_str());
        let d = Deduplicator;
        let h1 = d.compute_hash(fp.as_str());
        let h2 = d.compute_hash(fp.as_str());
        let host = s.host.clone();
        (
            IntakeState { phase: IntakePhase::AwaitHash, hash: h1, from_url: false, current: Some(c), ..s },
            IntakeAction::FindByHash { host, hash: h2 },
        )
    }
}

fn record(s: IntakeState, out: IntakeOutput) -> (r: (IntakeState, IntakeAction))
    ensures
        (r.0.model(), r.1.model()) == record_model(s.model(), output_model(out)),
{
    if s.from_url {
        let ghost o = output_model(out);
        let res = IntakeExecutionResult { outputs: vec![out], ignored_count: 0 };
        assert(res.outputs@.map_values(|x: IntakeOutput| output_model(x)) =~= seq![o]);
        (IntakeState { phase: IntakePhase::Done, ..s }, IntakeAction::Finish(Ok(res)))
    } else {
        let mut s = s;
        let ghost before = s.outputs@.map_values(|x: IntakeOutput| output_model(x));
        s.outputs.push(out);
        assert(s.outputs@.map_values(|x: IntakeOutput| output_model(x)) =~= before.push(output_model(out)));
        s.current = None;
        next_offer(s)
    }
}

/// One step of an intake (see `intake_step_model`).
pub fn intake_step(state: IntakeState, event: IntakeEvent) -> (r: (IntakeState, IntakeAction))
    ensures
        (r.0.model(), r.1.model()) == intake_step_model(state.model(), event.model()),
{
    let s = state;
    match event {
        IntakeEvent::Failed(e) => (IntakeState { phase: IntakePhase::Done, ..s }, IntakeAction::Finish(Err(e))),
        IntakeEvent::Begin => {
            if s.phase != IntakePhase::Start {
                return unexpected(s);
            }
            let d = Deduplicator;
            let host = d.resolve_host(s.source_url.as_str());
            if looks_like_url(s.source_url.as_str()) {
                let url = s.source_url.clone();
                (IntakeState { phase: IntakePhase::AwaitUrl, host, ..s }, IntakeAction::FindByUrl { url })
            } else {
                let text = s.raw_text.clone();
                (IntakeState { phase: IntakePhase::AwaitExtraction, host, ..s }, IntakeAction::Extract { text })
            }
        },
        IntakeEvent::UrlLookup(found) => {
            if s.phase != IntakePhase::AwaitUrl {
                return unexpected(s);
            }
            match found {
                Some(o) => {
                    let id = o.id.clone();
                    (
                        IntakeState { phase: IntakePhase::AwaitInstance, offre_id: o.id, slug: o.slug, from_url: true, ..s },
                        IntakeAction::FindInstance { offre_id: id },
                    )
                },
                None => {
                    let text = s.raw_text.clone();
                    (IntakeState { phase: IntakePhase::AwaitExtraction, ..s }, IntakeAction::Extract { text })
                },
            }
        },
        IntakeEvent::Extracted(v) => {
            if s.phase != IntakePhase::AwaitExtraction {
                return unexpected(s);
            }
            let (kept, dropped) = cap_items(v, MAX_EXTRACTED_OFFRES_PER_INPUT);
            next_offer(IntakeState { pending: kept, dropped, ..s })
        },
        IntakeEvent::HashLookup { found, fresh_id } => {
            if s.phase != IntakePhase::AwaitHash {
                return unexpected(s);
            }
            match found {
                Some(o) => {
                    let id = o.id.clone();
                    (
                        IntakeState { phase: IntakePhase::AwaitInstance, offre_id: o.id, slug: o.slug, ..s },
                        IntakeAction::FindInstance { offre_id: id },
                    )
                },
                None => {
                    let slug = match &s.current {
                        Some(c) => build_offre_slug_with(c.1.as_str(), c.0.as_str(), fresh_id.as_str()),
                        None => {
                            return unexpected(s);
                        },
                    };
                    let look = slug.clone();
                    (IntakeState { phase: IntakePhase::AwaitSlug, slug, ..s }, IntakeAction::FindBySlug { slug: look })
                },
            }
        },
        IntakeEvent::SlugLookup(found) => {
            if s.phase != IntakePhase::AwaitSlug {
                return unexpected(s);
            }
            match found {
                Some(o) => {
                    let id = o.id.clone();
                    (
                        IntakeState { phase: IntakePhase::AwaitInstance, offre_id: o.id, slug: o.slug, ..s },
                        IntakeAction::FindInstance { offre_id: id },
                    )
                },
                None => {
                    if s.current.is_none() {
                        return unexpected(s);
                    }
                    let hash = copy_bytes(&s.hash);
                    let slug = s.slug.clone();
                    let source_url = s.source_url.clone();
                    let source_host = s.host.clone();
                    let raw_text = s.raw_text.clone();
                    match s.current {
                        Some(c) => {
                            let offre = Offre {
                                slug,
                                source_url,
                                source_host,
                                entreprise: c.1,
                                intitule: c.0,
                                localisation: c.2,
                                contrat: c.3,
                                raw_text,
                                structured: c.4,
                                categorie: None,
                            };
                            (
                                IntakeState { phase: IntakePhase::AwaitPersist, current: None, ..s },
                                IntakeAction::Persist { offre, hash },
                            )
                        },
                        None => {
                            (IntakeState { phase: IntakePhase::Done, current: None, ..s }, IntakeAction::Finish(Err(AppError::NotFound)))
                        },
                    }
                },
            }
        },
        IntakeEvent::Persisted { offre_id } => {
            if s.phase != IntakePhase::AwaitPersist {
                return unexpected(s);
            }
            let slug = s.slug.clone();
            let id = offre_id.clone();
            (
                IntakeState { phase: IntakePhase::AwaitDraft, offre_id, ..s },
                IntakeAction::CreateDraft { offre_id: id, slug },
            )
        },
        IntakeEvent::InstanceLookup(found) => {
            if s.phase != IntakePhase::AwaitInstance {
                return unexpected(s);
            }
            match found {
                Some(i) => {
                    let out = IntakeOutput {
                        offre_slug: s.slug.clone(),
                        instance_id: i.id,
                        instance_slug: i.slug,
                        was_duplicate: true,
                    };
                    record(s, out)
                },
                None => {
                    let id = s.offre_id.clone();
                    let slug = s.slug.clone();
                    (IntakeState { phase: IntakePhase::AwaitDraft, ..s }, IntakeAction::CreateDraft { offre_id: id, slug })
                },
            }
        },
        IntakeEvent::DraftCreated(i) => {
            if s.phase != IntakePhase::AwaitDraft {
                return unexpected(s);
            }
            let out = IntakeOutput {
                offre_slug: s.slug.clone(),
                instance_id: i.id,
                instance_slug: i.slug,
                was_duplicate: false,
            };
            record(s, out)
        },
    }
}

/// An offer already stored is answered as a duplicate, never stored again:
/// when a lookup by address, content hash or slug finds it, the next step
/// asks for its application; the only step that stores an offer is the one
/// after its slug was looked up and found nowhere.
pub proof fn lemma_found_offers_are_never_stored(s: IntakeStateModel, e: IntakeEventModel)
    ensures
        match (s.phase, e) {
            (IntakePhase::AwaitUrl, IntakeEventModel::UrlLookup(Some(o))) => intake_step_model(s, e).1
                == IntakeActionModel::FindInstance(o.0),
            (IntakePhase::AwaitHash, IntakeEventModel::HashLookup(Some(o), _)) => intake_step_model(s, e).1
                == IntakeActionModel::FindInstance(o.0),
            (IntakePhase::AwaitSlug, IntakeEventModel::SlugLookup(Some(o))) => intake_step_model(s, e).1
                == IntakeActionModel::FindInstance(o.0),
            _ => true,
        },
        intake_step_model(s, e).1 is Persist ==> s.phase == IntakePhase::AwaitSlug && e == IntakeEventModel::SlugLookup(None),
{
}

/// An application found for a known offer is reported as a duplicate.
pub proof fn lemma_found_application_is_a_duplicate(s: IntakeStateModel, i: (Seq<char>, Seq<char>))
    requires
        s.phase == IntakePhase::AwaitInstance,
    ensures
        ({
            let r = intake_step_model(s, IntakeEventModel::InstanceLookup(Some(i)));
            if s.from_url {
                r.1 == IntakeActionModel::Finish(IntakeOutcomeModel::Done(seq![(s.slug, i.0, i.1, true)], 0))
            } else {
                r.0.outputs.len() > 0 && r.0.outputs.last() == (s.slug, i.0, i.1, true) || r.1 is Finish
            }
        }),
{
}

/// At most `MAX_EXTRACTED_OFFRES_PER_INPUT` extracted offers are taken up:
/// once the extraction arrives, the offer in hand and those pending are
/// the first of them, at most the cap, and the rest is counted as dropped.
pub proof fn lemma_extraction_is_capped(s: IntakeStateModel, v: Seq<Extracted>)
    requires
        s.phase == IntakePhase::AwaitExtraction,
        s.current is None,
    ensures
        ({
            let r = intake_step_model(s, IntakeEventModel::Extracted(v)).0;
            let max = MAX_EXTRACTED_OFFRES_PER_INPUT as int;
            &&& r.pending.len() + (if r.current is Some { 1int } else { 0 }) == if v.len() <= max { v.len() as int } else { max }
            &&& r.dropped == if v.len() <= max { 0 } else { v.len() - max }
        }),
{
}

} // verus!
