//! The creation of a batch, as a machine that the caller drives.
//!
//! The machine takes the records in the order objectives, epics, stories,
//! each tier in the order of the input. `prepare` turns the next record into
//! the request that creates it; the caller sends the request and hands the
//! outcome to `complete`. A record whose references do not resolve is never
//! sent: `prepare` records the failure and moves on. A created objective or
//! epic is registered under its name before the next record is prepared, so
//! that later records can refer to it. No failure stops the run.

use crate::api::models::{
    CreateEpicRequest, CreateEpicRequestView, CreateObjectiveRequest, CreateObjectiveRequestView,
    CreateStoryRequest, CreateStoryRequestView,
};
use crate::commands::requests::{
    build_epic_request, build_objective_request, build_story_request, epic_request,
    objective_request, story_request,
};
use crate::error::ErrorView;
use crate::input::models::{InputFile, InputFileView};
use crate::resolver::{Resolver, ResolverView};
use crate::template::Template;
use crate::text::{parsed_i64, texts, trimmed};
use vstd::prelude::*;
use vstd::string::*;

verus! {

/// The kind of a record, which is also its tier.
#[derive(Debug, Clone, Copy, PartialEq, Eq, Structural)]
pub enum RecordKind {
    Objective,
    Epic,
    Story,
}

impl RecordKind {
    /// The kind as it starts a failure entry.
    pub open spec fn label_text(self) -> Seq<char> {
        match self {
            RecordKind::Objective => "Objective"@,
            RecordKind::Epic => "Epic"@,
            RecordKind::Story => "Story"@,
        }
    }

    /// The kind as events name it.
    pub open spec fn noun_text(self) -> Seq<char> {
        match self {
            RecordKind::Objective => "objective"@,
            RecordKind::Epic => "epic"@,
            RecordKind::Story => "story"@,
        }
    }

    /// The kind as it starts a failure entry.
    pub fn label(&self) -> (r: &'static str)
        ensures
            r@ == self.label_text(),
    {
        match self {
            RecordKind::Objective => "Objective",
            RecordKind::Epic => "Epic",
            RecordKind::Story => "Story",
        }
    }

    /// The kind as events name it.
    pub fn noun(&self) -> (r: &'static str)
        ensures
            r@ == self.noun_text(),
    {
        match self {
            RecordKind::Objective => "objective",
            RecordKind::Epic => "epic",
            RecordKind::Story => "story",
        }
    }
}

/// A record that was not created, and why.
#[derive(Debug)]
pub struct Failure {
    pub kind: RecordKind,
    pub name: String,
    pub message: String,
}

pub struct FailureView {
    pub kind: RecordKind,
    pub name: Seq<char>,
    pub message: Seq<char>,
}

impl FailureView {
    /// The entry as one line: the kind, the name in quotes, the message.
    pub open spec fn text(self) -> Seq<char> {
        self.kind.label_text() + " '"@ + self.name + "': "@ + self.message
    }
}

impl View for Failure {
    type V = FailureView;

    open spec fn view(&self) -> FailureView {
        FailureView { kind: self.kind, name: self.name@, message: self.message@ }
    }
}

impl Failure {
    /// The entry as one line: the kind, the name in quotes, the message.
    pub fn text(&self) -> (r: String)
        ensures
            r@ == self@.text(),
    {
        let mut r = self.kind.label().to_owned();
        r.append(" '");
        r.append(self.name.as_str());
        r.append("': ");
        r.append(self.message.as_str());
        r
    }
}

/// The views of the failures of `v`.
pub open spec fn failure_views(v: Seq<Failure>) -> Seq<FailureView> {
    v.map_values(|f: Failure| f@)
}

/// The lines of the failures of `v`.
pub open spec fn failure_texts(v: Seq<FailureView>) -> Seq<Seq<char>> {
    v.map_values(|f: FailureView| f.text())
}

/// What a run has done so far: how many records of each tier it created,
/// and the failures in the order in which they occurred.
#[derive(Debug)]
pub struct RunResults {
    pub objectives_ok: usize,
    pub epics_ok: usize,
    pub stories_ok: usize,
    pub errors: Vec<Failure>,
}

pub struct RunResultsView {
    pub objectives_ok: nat,
    pub epics_ok: nat,
    pub stories_ok: nat,
    pub errors: Seq<FailureView>,
}

impl View for RunResults {
    type V = RunResultsView;

    open spec fn view(&self) -> RunResultsView {
        RunResultsView {
            objectives_ok: self.objectives_ok as nat,
            epics_ok: self.epics_ok as nat,
            stories_ok: self.stories_ok as nat,
            errors: failure_views(self.errors@),
        }
    }
}

impl RunResultsView {
    /// The results of a run that has done nothing.
    pub open spec fn empty() -> RunResultsView {
        RunResultsView { objectives_ok: 0, epics_ok: 0, stories_ok: 0, errors: Seq::empty() }
    }

    /// These results and one more record of kind `kind` created.
    pub open spec fn created(self, kind: RecordKind) -> RunResultsView {
        match kind {
            RecordKind::Objective => RunResultsView {
                objectives_ok: self.objectives_ok + 1,
                ..self
            },
            RecordKind::Epic => RunResultsView { epics_ok: self.epics_ok + 1, ..self },
            RecordKind::Story => RunResultsView { stories_ok: self.stories_ok + 1, ..self },
        }
    }

    /// These results and one more failure.
    pub open spec fn failed(self, failure: FailureView) -> RunResultsView {
        RunResultsView { errors: self.errors.push(failure), ..self }
    }

    /// How many records the results account for.
    pub open spec fn accounted(self) -> nat {
        self.objectives_ok + self.epics_ok + self.stories_ok + self.errors.len()
    }
}

impl RunResults {
    /// The results of a run that has done nothing.
    pub fn new() -> (r: RunResults)
        ensures
            r@ == RunResultsView::empty(),
    {
        let r = RunResults { objectives_ok: 0, epics_ok: 0, stories_ok: 0, errors: Vec::new() };
        proof {
            assert(failure_views(r.errors@) =~= Seq::<FailureView>::empty());
        }
        r
    }

    /// Whether no record failed.
    pub fn succeeded(&self) -> (r: bool)
        ensures
            r == (self@.errors.len() == 0),
    {
        self.errors.len() == 0
    }

    /// The status that the run ends with: 0 if no record failed, else 1,
    /// however many were created.
    pub fn exit_code(&self) -> (r: i32)
        ensures
            r == (if self@.errors.len() == 0 {
                0i32
            } else {
                1i32
            }),
    {
        if self.errors.len() == 0 {
            0
        } else {
            1
        }
    }

    /// How many records failed.
    pub fn error_count(&self) -> (r: usize)
        ensures
            r == self@.errors.len(),
    {
        self.errors.len()
    }

    /// The failures, one line each, in the order in which they occurred.
    pub fn error_texts(&self) -> (r: Vec<String>)
        ensures
            texts(r@) == failure_texts(self@.errors),
    {
        let mut lines: Vec<String> = Vec::new();
        let mut i: usize = 0;
        while i < self.errors.len()
            invariant
                i <= self.errors.len(),
                lines@.len() == i,
                forall|k: int| 0 <= k < i ==> (#[trigger] lines@[k])@ == self.errors@[k]@.text(),
            decreases self.errors.len() - i,
        {
            lines.push(self.errors[i].text());
            i = i + 1;
        }
        proof {
            assert(texts(lines@) =~= failure_texts(self@.errors));
        }
        lines
    }
}

/// Where a run stands: in one of the three tiers, or behind the last.
#[derive(Debug, Clone, Copy, PartialEq, Eq, Structural)]
pub enum Stage {
    Objectives,
    Epics,
    Stories,
    Done,
}

/// The request that creates a record of one of the three kinds.
#[derive(Debug)]
pub enum CreateRequest {
    Objective(CreateObjectiveRequest),
    Epic(CreateEpicRequest),
    Story(CreateStoryRequest),
}

pub enum CreateRequestView {
    Objective(CreateObjectiveRequestView),
    Epic(CreateEpicRequestView),
    Story(CreateStoryRequestView),
}

impl View for CreateRequest {
    type V = CreateRequestView;

    open spec fn view(&self) -> CreateRequestView {
        match *self {
            CreateRequest::Objective(r) => CreateRequestView::Objective(r@),
            CreateRequest::Epic(r) => CreateRequestView::Epic(r@),
            CreateRequest::Story(r) => CreateRequestView::Story(r@),
        }
    }
}

/// What `prepare` found.
#[derive(Debug)]
pub enum Step {
    /// The record `name` is ready: send `request` and hand the outcome to
    /// `complete`.
    Submit { kind: RecordKind, name: String, request: CreateRequest },
    /// The record `name` could not be turned into a request. The failure is
    /// recorded and the run has moved on.
    Skipped { kind: RecordKind, name: String, message: String },
    /// No record is left.
    Finished,
}

pub enum StepView {
    Submit { kind: RecordKind, name: Seq<char>, request: CreateRequestView },
    Skipped { kind: RecordKind, name: Seq<char>, message: Seq<char> },
    Finished,
}

impl View for Step {
    type V = StepView;

    open spec fn view(&self) -> StepView {
        match *self {
            Step::Submit { kind, name, request } => StepView::Submit {
                kind,
                name: name@,
                request: request@,
            },
            Step::Skipped { kind, name, message } => StepView::Skipped {
                kind,
                name: name@,
                message: message@,
            },
            Step::Finished => StepView::Finished,
        }
    }
}

/// How a create call ended.
#[derive(Debug)]
pub enum Outcome {
    /// The record exists and has the identifier `id`.
    Created { id: i64 },
    /// The call failed; `message` says why.
    Failed { message: String },
}

pub enum OutcomeView {
    Created { id: i64 },
    Failed { message: Seq<char> },
}

impl View for Outcome {
    type V = OutcomeView;

    open spec fn view(&self) -> OutcomeView {
        match *self {
            Outcome::Created { id } => OutcomeView::Created { id },
            Outcome::Failed { message } => OutcomeView::Failed { message: message@ },
        }
    }
}

/// The first record at or behind story `index`.
pub open spec fn from_stories(input: InputFileView, index: nat) -> (Stage, nat) {
    if index < input.stories.len() {
        (Stage::Stories, index)
    } else {
        (Stage::Done, 0)
    }
}

/// The first record at or behind epic `index`.
pub open spec fn from_epics(input: InputFileView, index: nat) -> (Stage, nat) {
    if index < input.epics.len() {
        (Stage::Epics, index)
    } else {
        from_stories(input, 0)
    }
}

/// The first record at or behind objective `index`.
pub open spec fn from_objectives(input: InputFileView, index: nat) -> (Stage, nat) {
    if index < input.objectives.len() {
        (Stage::Objectives, index)
    } else {
        from_epics(input, 0)
    }
}

/// The record that follows the one at `index` of `stage`.
pub open spec fn following(input: InputFileView, stage: Stage, index: nat) -> (Stage, nat) {
    match stage {
        Stage::Objectives => from_objectives(input, index + 1),
        Stage::Epics => from_epics(input, index + 1),
        Stage::Stories => from_stories(input, index + 1),
        Stage::Done => (Stage::Done, 0),
    }
}

/// The state of a run.
pub struct PipelineView {
    pub input: InputFileView,
    /// The template of the epics that bring none.
    pub global_template: Option<Seq<char>>,
    pub resolver: ResolverView,
    pub results: RunResultsView,
    /// The tier of the next record.
    pub stage: Stage,
    /// The place of the next record in its tier.
    pub index: nat,
    /// Whether the next record was handed out by `prepare` and its outcome
    /// is awaited.
    pub awaiting: bool,
}

impl PipelineView {
    /// The state before the first record.
    pub open spec fn start(
        input: InputFileView,
        resolver: ResolverView,
        global_template: Option<Seq<char>>,
    ) -> PipelineView {
        PipelineView {
            input,
            global_template,
            resolver,
            results: RunResultsView::empty(),
            stage: from_objectives(input, 0).0,
            index: from_objectives(input, 0).1,
            awaiting: false,
        }
    }

    /// How many objectives the run is through with.
    pub open spec fn objectives_done(self) -> nat {
        match self.stage {
            Stage::Objectives => self.index,
            _ => self.input.objectives.len(),
        }
    }

    /// How many epics the run is through with.
    pub open spec fn epics_done(self) -> nat {
        match self.stage {
            Stage::Objectives => 0,
            Stage::Epics => self.index,
            _ => self.input.epics.len(),
        }
    }

    /// How many stories the run is through with.
    pub open spec fn stories_done(self) -> nat {
        match self.stage {
            Stage::Stories => self.index,
            Stage::Done => self.input.stories.len(),
            _ => 0,
        }
    }

    /// How many records the run is through with.
    pub open spec fn processed(self) -> nat {
        self.objectives_done() + self.epics_done() + self.stories_done()
    }

    /// How many records the batch holds.
    pub open spec fn total(self) -> nat {
        self.input.objectives.len() + self.input.epics.len() + self.input.stories.len()
    }

    /// What holds of every state of a run: the next record exists unless the
    /// run is done, no tier has more records created than it is through
    /// with, and each record it is through with was either created or
    /// recorded as a failure.
    pub open spec fn wf(self) -> bool {
        &&& match self.stage {
            Stage::Objectives => self.index < self.input.objectives.len(),
            Stage::Epics => self.index < self.input.epics.len(),
            Stage::Stories => self.index < self.input.stories.len(),
            Stage::Done => self.index == 0,
        }
        &&& self.results.objectives_ok <= self.objectives_done()
        &&& self.results.epics_ok <= self.epics_done()
        &&& self.results.stories_ok <= self.stories_done()
        &&& self.results.accounted() == self.processed()
        &&& self.awaiting ==> self.stage != Stage::Done
    }

    /// The kind of the next record.
    pub open spec fn kind(self) -> RecordKind {
        match self.stage {
            Stage::Objectives => RecordKind::Objective,
            Stage::Epics => RecordKind::Epic,
            _ => RecordKind::Story,
        }
    }

    /// The name of the next record.
    pub open spec fn name(self) -> Seq<char> {
        match self.stage {
            Stage::Objectives => self.input.objectives[self.index as int].name,
            Stage::Epics => self.input.epics[self.index as int].name,
            _ => self.input.stories[self.index as int].name,
        }
    }

    /// The path of the template that the next record brings, if it is an
    /// epic that brings one.
    pub open spec fn template_path(self) -> Option<Seq<char>> {
        match self.stage {
            Stage::Epics => self.input.epics[self.index as int].template,
            _ => None,
        }
    }

    /// The template that applies to the next record: its own, and else the
    /// one of the run.
    pub open spec fn template(self, item_template: Option<Seq<char>>) -> Option<Seq<char>> {
        match item_template {
            Some(content) => Some(content),
            None => self.global_template,
        }
    }

    /// The request that creates the next record, or the error of the first
    /// of its references that does not resolve.
    pub open spec fn request(self, item_template: Option<Seq<char>>) -> Result<
        CreateRequestView,
        ErrorView,
    > {
        match self.stage {
            Stage::Objectives => Ok(
                CreateRequestView::Objective(
                    objective_request(self.input.objectives[self.index as int]),
                ),
            ),
            Stage::Epics => match epic_request(
                self.input.epics[self.index as int],
                self.resolver,
                self.template(item_template),
            ) {
                Ok(request) => Ok(CreateRequestView::Epic(request)),
                Err(e) => Err(e),
            },
            _ => match story_request(self.input.stories[self.index as int], self.resolver) {
                Ok(request) => Ok(CreateRequestView::Story(request)),
                Err(e) => Err(e),
            },
        }
    }

    /// The state with the cursor on the following record.
    pub open spec fn moved_on(self) -> PipelineView {
        PipelineView {
            stage: following(self.input, self.stage, self.index).0,
            index: following(self.input, self.stage, self.index).1,
            awaiting: false,
            ..self
        }
    }

    /// The state after the next record failed with `message`.
    pub open spec fn failed(self, message: Seq<char>) -> PipelineView {
        PipelineView {
            results: self.results.failed(
                FailureView { kind: self.kind(), name: self.name(), message },
            ),
            ..self
        }.moved_on()
    }

    /// The tables after the next record was created as `id`: an objective
    /// or an epic is registered under its name, a story is not.
    pub open spec fn registered(self, id: i64) -> ResolverView {
        match self.stage {
            Stage::Objectives => self.resolver.register_objective(self.name(), id),
            Stage::Epics => self.resolver.register_epic(self.name(), id),
            _ => self.resolver,
        }
    }

    /// The state after the next record was created as `id`.
    pub open spec fn created(self, id: i64) -> PipelineView {
        PipelineView {
            resolver: self.registered(id),
            results: self.results.created(self.kind()),
            ..self
        }.moved_on()
    }

    /// What `prepare` does: the state after it and what it returns.
    pub open spec fn prepare(self, item_template: Option<Seq<char>>) -> (PipelineView, StepView) {
        if self.stage == Stage::Done {
            (self, StepView::Finished)
        } else {
            match self.request(item_template) {
                Ok(request) => (
                    PipelineView { awaiting: true, ..self },
                    StepView::Submit { kind: self.kind(), name: self.name(), request },
                ),
                Err(e) => (
                    self.failed(e.text()),
                    StepView::Skipped { kind: self.kind(), name: self.name(), message: e.text() },
                ),
            }
        }
    }

    /// What `complete` does: nothing unless an outcome is awaited.
    pub open spec fn complete(self, outcome: OutcomeView) -> PipelineView {
        if !self.awaiting {
            self
        } else {
            match outcome {
                OutcomeView::Created { id } => self.created(id),
                OutcomeView::Failed { message } => self.failed(message),
            }
        }
    }
}

/// The creation of one batch.
///
/// Every pipeline is in a state of which `PipelineView::wf` holds.
pub struct Pipeline {
    input: InputFile,
    global_template: Option<Template>,
    resolver: Resolver,
    results: RunResults,
    stage: Stage,
    index: usize,
    awaiting: bool,
}

impl View for Pipeline {
    type V = PipelineView;

    closed spec fn view(&self) -> PipelineView {
        PipelineView {
            input: self.input@,
            global_template: match self.global_template {
                Some(t) => Some(t@),
                None => None,
            },
            resolver: self.resolver@,
            results: self.results@,
            stage: self.stage,
            index: self.index as nat,
            awaiting: self.awaiting,
        }
    }
}

/// The text of the template in `o`, if there is one.
pub open spec fn opt_template(o: Option<&Template>) -> Option<Seq<char>> {
    match o {
        Some(t) => Some(t@),
        None => None,
    }
}

/// The record that follows the one at `index` of `stage`.
fn next_record(input: &InputFile, stage: Stage, index: usize) -> (r: (Stage, usize))
    requires
        match stage {
            Stage::Objectives => index < input.objectives.len(),
            Stage::Epics => index < input.epics.len(),
            Stage::Stories => index < input.stories.len(),
            Stage::Done => true,
        },
    ensures
        r.0 == following(input@, stage, index as nat).0,
        r.1 == following(input@, stage, index as nat).1,
{
    let objectives = input.objectives.len();
    let epics = input.epics.len();
    let stories = input.stories.len();
    match stage {
        Stage::Objectives => if index + 1 < objectives {
            (Stage::Objectives, index + 1)
        } else if epics > 0 {
            (Stage::Epics, 0)
        } else if stories > 0 {
            (Stage::Stories, 0)
        } else {
            (Stage::Done, 0)
        },
        Stage::Epics => if index + 1 < epics {
            (Stage::Epics, index + 1)
        } else if stories > 0 {
            (Stage::Stories, 0)
        } else {
            (Stage::Done, 0)
        },
        Stage::Stories => if index + 1 < stories {
            (Stage::Stories, index + 1)
        } else {
            (Stage::Done, 0)
        },
        Stage::Done => (Stage::Done, 0),
    }
}

/// `results` with one more failure.
fn with_failure(results: RunResults, kind: RecordKind, name: String, message: String) -> (r:
    RunResults)
    ensures
        r@ == results@.failed(FailureView { kind, name: name@, message: message@ }),
{
    let RunResults { objectives_ok, epics_ok, stories_ok, mut errors } = results;
    let failure = Failure { kind, name, message };
    proof {
        assert(failure_views(errors@.push(failure)) =~= failure_views(errors@).push(failure@));
    }
    errors.push(failure);
    RunResults { objectives_ok, epics_ok, stories_ok, errors }
}

impl Pipeline {
    #[verifier::type_invariant]
    spec fn well_formed(&self) -> bool {
        self@.wf()
    }

    /// The run that creates `input` with the tables of `resolver`.
    /// `global_template` renders the description of the epics that bring no
    /// template of their own.
    pub fn new(input: InputFile, resolver: Resolver, global_template: Option<Template>) -> (r:
        Pipeline)
        ensures
            r@.wf(),
            r@ == PipelineView::start(
                input@,
                resolver@,
                match global_template {
                    Some(t) => Some(t@),
                    None => None,
                },
            ),
    {
        let stage = if input.objectives.len() > 0 {
            Stage::Objectives
        } else if input.epics.len() > 0 {
            Stage::Epics
        } else if input.stories.len() > 0 {
            Stage::Stories
        } else {
            Stage::Done
        };
        Pipeline {
            input,
            global_template,
            resolver,
            results: RunResults::new(),
            stage,
            index: 0,
            awaiting: false,
        }
    }

    /// Whether no record is left.
    pub fn finished(&self) -> (r: bool)
        ensures
            self@.wf(),
            r == (self@.stage == Stage::Done),
    {
        proof {
            use_type_invariant(self);
        }
        match self.stage {
            Stage::Done => true,
            _ => false,
        }
    }

    /// What the run has done so far.
    pub fn results(&self) -> (r: &RunResults)
        ensures
            self@.wf(),
            r@ == self@.results,
    {
        proof {
            use_type_invariant(self);
        }
        &self.results
    }

    /// The tables as they stand.
    pub fn resolver(&self) -> (r: &Resolver)
        ensures
            self@.wf(),
            r@ == self@.resolver,
    {
        proof {
            use_type_invariant(self);
        }
        &self.resolver
    }

    /// Ends the run and gives what it has done.
    pub fn into_results(self) -> (r: RunResults)
        ensures
            self@.wf(),
            r@ == self@.results,
    {
        proof {
            use_type_invariant(&self);
        }
        self.results
    }

    /// The path of the template that the next record brings, if it is an
    /// epic that brings one. The caller reads the file and hands the
    /// template to `prepare`.
    pub fn template_path(&self) -> (r: Option<&str>)
        ensures
            match r {
                Some(path) => self@.template_path() == Some(path@),
                None => self@.template_path() is None,
            },
    {
        proof {
            use_type_invariant(self);
        }
        match self.stage {
            Stage::Epics => match &self.input.epics[self.index].template {
                Some(path) => Some(path.as_str()),
                None => None,
            },
            _ => None,
        }
    }

    /// Turns the next record into the request that creates it and gives
    /// the run as it stands after that. `item_template` is the template
    /// that the record brings, read by the caller from `template_path`;
    /// without one the template of the run applies.
    ///
    /// A record that is handed out stays the next record until `complete`
    /// takes its outcome: `prepare` hands it out again.
    pub fn prepare(self, item_template: Option<&Template>) -> (r: (Pipeline, Step))
        ensures
            self@.wf(),
            r.0@.wf(),
            r.0@ == self@.prepare(opt_template(item_template)).0,
            r.1@ == self@.prepare(opt_template(item_template)).1,
    {
        proof {
            use_type_invariant(&self);
        }
        let Pipeline { input, global_template, resolver, results, stage, index, awaiting } = self;
        match stage {
            Stage::Done => (
                Pipeline { input, global_template, resolver, results, stage, index, awaiting },
                Step::Finished,
            ),
            Stage::Objectives => {
                let name = input.objectives[index].name.clone();
                let request = build_objective_request(&input.objectives[index]);
                (
                    Pipeline {
                        input,
                        global_template,
                        resolver,
                        results,
                        stage,
                        index,
                        awaiting: true,
                    },
                    Step::Submit {
                        kind: RecordKind::Objective,
                        name,
                        request: CreateRequest::Objective(request),
                    },
                )
            },
            Stage::Epics => {
                let name = input.epics[index].name.clone();
                let template = match item_template {
                    Some(t) => Some(t),
                    None => global_template.as_ref(),
                };
                match build_epic_request(&input.epics[index], &resolver, template) {
                    Ok(request) => (
                        Pipeline {
                            input,
                            global_template,
                            resolver,
                            results,
                            stage,
                            index,
                            awaiting: true,
                        },
                        Step::Submit {
                            kind: RecordKind::Epic,
                            name,
                            request: CreateRequest::Epic(request),
                        },
                    ),
                    Err(e) => {
                        let message = e.message();
                        let results = with_failure(
                            results,
                            RecordKind::Epic,
                            name.clone(),
                            message.clone(),
                        );
                        let (stage, index) = next_record(&input, stage, index);
                        (
                            Pipeline {
                                input,
                                global_template,
                                resolver,
                                results,
                                stage,
                                index,
                                awaiting: false,
                            },
                            Step::Skipped { kind: RecordKind::Epic, name, message },
                        )
                    },
                }
            },
            Stage::Stories => {
                let name = input.stories[index].name.clone();
                match build_story_request(&input.stories[index], &resolver) {
                    Ok(request) => (
                        Pipeline {
                            input,
                            global_template,
                            resolver,
                            results,
                            stage,
                            index,
                            awaiting: true,
                        },
                        Step::Submit {
                            kind: RecordKind::Story,
                            name,
                            request: CreateRequest::Story(request),
                        },
                    ),
                    Err(e) => {
                        let message = e.message();
                        let results = with_failure(
                            results,
                            RecordKind::Story,
                            name.clone(),
                            message.clone(),
                        );
                        let (stage, index) = next_record(&input, stage, index);
                        (
                            Pipeline {
                                input,
                                global_template,
                                resolver,
                                results,
                                stage,
                                index,
                                awaiting: false,
                            },
                            Step::Skipped { kind: RecordKind::Story, name, message },
                        )
                    },
                }
            },
        }
    }

    /// Takes the outcome of the create call that `prepare` asked for and
    /// gives the run as it stands after that. A created objective or epic
    /// is registered under the name of its record; a failure is recorded.
    /// Either way the following record is next. Without a call asked for,
    /// the run stays as it is.
    pub fn complete(self, outcome: Outcome) -> (r: Pipeline)
        ensures
            self@.wf(),
            r@.wf(),
            r@ == self@.complete(outcome@),
    {
        proof {
            use_type_invariant(&self);
        }
        if !self.awaiting {
            return self;
        }
        let Pipeline {
            input,
            global_template,
            mut resolver,
            results,
            stage,
            index,
            awaiting: _,
        } = self;
        let (kind, name) = match stage {
            Stage::Objectives => (RecordKind::Objective, input.objectives[index].name.clone()),
            Stage::Epics => (RecordKind::Epic, input.epics[index].name.clone()),
            _ => (RecordKind::Story, input.stories[index].name.clone()),
        };
        let results = match outcome {
            Outcome::Failed { message } => with_failure(results, kind, name, message),
            Outcome::Created { id } => {
                let RunResults { objectives_ok, epics_ok, stories_ok, errors } = results;
                match stage {
                    Stage::Objectives => {
                        assert(objectives_ok <= index < input.objectives.len());
                        resolver.register_objective(name, id);
                        RunResults { objectives_ok: objectives_ok + 1, epics_ok, stories_ok, errors }
                    },
                    Stage::Epics => {
                        assert(epics_ok <= index < input.epics.len());
                        resolver.register_epic(name, id);
                        RunResults { objectives_ok, epics_ok: epics_ok + 1, stories_ok, errors }
                    },
                    _ => {
                        assert(stories_ok <= index < input.stories.len());
                        RunResults { objectives_ok, epics_ok, stories_ok: stories_ok + 1, errors }
                    },
                }
            },
        };
        let (stage, index) = next_record(&input, stage, index);
        Pipeline { input, global_template, resolver, results, stage, index, awaiting: false }
    }
}

/// Every step of a run keeps what holds of every state.
pub proof fn lemma_steps_keep_wf(
    s: PipelineView,
    item_template: Option<Seq<char>>,
    outcome: OutcomeView,
)
    requires
        s.wf(),
    ensures
        s.prepare(item_template).0.wf(),
        s.complete(outcome).wf(),
{
}

/// A run starts well, with nothing done.
pub proof fn lemma_start(
    input: InputFileView,
    resolver: ResolverView,
    global_template: Option<Seq<char>>,
)
    ensures
        PipelineView::start(input, resolver, global_template).wf(),
        PipelineView::start(input, resolver, global_template).processed() == 0,
{
}

/// The tiers come in order: while an objective is next, no epic and no
/// story has been taken; while an epic is next, every objective and no
/// story has been taken; while a story is next, every objective and every
/// epic has been taken; and the run is done exactly when every record has
/// been taken.
pub proof fn lemma_tier_order(s: PipelineView)
    requires
        s.wf(),
    ensures
        s.stage == Stage::Objectives ==> s.epics_done() == 0 && s.stories_done() == 0,
        s.stage == Stage::Epics ==> s.objectives_done() == s.input.objectives.len()
            && s.stories_done() == 0,
        s.stage == Stage::Stories ==> s.objectives_done() == s.input.objectives.len()
            && s.epics_done() == s.input.epics.len(),
        s.stage == Stage::Done <==> s.processed() == s.total(),
        s.processed() <= s.total(),
{
}

/// `prepare` hands out the next record without taking it, or takes it as a
/// failure; `complete` takes the record that was handed out. A record that
/// is taken is taken once, and the records in between are not skipped.
pub proof fn lemma_progress(s: PipelineView, item_template: Option<Seq<char>>, outcome: OutcomeView)
    requires
        s.wf(),
    ensures
        match s.prepare(item_template).1 {
            StepView::Submit { kind, .. } => s.prepare(item_template).0.processed() == s.processed()
                && kind == s.kind() && s.prepare(item_template).0.awaiting,
            StepView::Skipped { .. } => s.prepare(item_template).0.processed() == s.processed() + 1
                && s.prepare(item_template).0.results.errors.len() == s.results.errors.len() + 1,
            StepView::Finished => s.processed() == s.total() && s.prepare(item_template).0 == s,
        },
        s.awaiting ==> s.complete(outcome).processed() == s.processed() + 1,
        !s.awaiting ==> s.complete(outcome) == s,
{
}

/// The tables of objectives and epics change in one way only: by the
/// outcome of a create call that succeeded. Preparing a record, a failure
/// and the creation of a story leave them as they were.
pub proof fn lemma_registration(
    s: PipelineView,
    item_template: Option<Seq<char>>,
    message: Seq<char>,
    id: i64,
)
    requires
        s.wf(),
    ensures
        s.prepare(item_template).0.resolver == s.resolver,
        s.complete(OutcomeView::Failed { message }).resolver == s.resolver,
        s.complete(OutcomeView::Created { id }).resolver == (if s.awaiting {
            s.registered(id)
        } else {
            s.resolver
        }),
        s.stage == Stage::Stories ==> s.registered(id) == s.resolver,
{
}

/// Once an objective is created, a reference to it by its name resolves to
/// the identifier that its create call returned. This holds of a name
/// without surrounding whitespace that writes no number.
pub proof fn lemma_created_objective_resolves(s: PipelineView, id: i64)
    requires
        s.wf(),
        s.awaiting,
        s.stage == Stage::Objectives,
        trimmed(s.name()) == s.name(),
        parsed_i64(s.name()) is None,
    ensures
        s.complete(OutcomeView::Created { id }).resolver.resolve_objective(s.name()) == Ok::<
            i64,
            ErrorView,
        >(id),
{
}

/// Once an epic is created, a reference to it by its name resolves to the
/// identifier that its create call returned. This holds of a name without
/// surrounding whitespace that writes no number.
pub proof fn lemma_created_epic_resolves(s: PipelineView, id: i64)
    requires
        s.wf(),
        s.awaiting,
        s.stage == Stage::Epics,
        trimmed(s.name()) == s.name(),
        parsed_i64(s.name()) is None,
    ensures
        s.complete(OutcomeView::Created { id }).resolver.resolve_epic(s.name()) == Ok::<
            i64,
            ErrorView,
        >(id),
{
}

/// A failure does not stop the run: after it the following record is next,
/// as it is after a success.
pub proof fn lemma_failure_moves_on(s: PipelineView, message: Seq<char>, id: i64)
    requires
        s.wf(),
        s.awaiting,
    ensures
        s.complete(OutcomeView::Failed { message }).stage == s.complete(
            OutcomeView::Created { id },
        ).stage,
        s.complete(OutcomeView::Failed { message }).index == s.complete(
            OutcomeView::Created { id },
        ).index,
        s.complete(OutcomeView::Failed { message }).results.errors == s.results.errors.push(
            FailureView { kind: s.kind(), name: s.name(), message },
        ),
{
}

} // verus!
