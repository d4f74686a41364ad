//! From a pending record to the request that creates it.
//!
//! Every reference of a record is resolved before the request exists; the
//! first reference that does not resolve, in the order owners, teams,
//! parent, workflow stage, gives the error.

use crate::api::models::{
    label_names, opt_label_names, CreateEpicRequest, CreateEpicRequestView, CreateLabelParams,
    CreateObjectiveRequest, CreateObjectiveRequestView, CreateStoryRequest,
    CreateStoryRequestView,
};
use crate::error::{BypassError, ErrorView};
use crate::input::models::{
    InputEpic, InputEpicView, InputObjective, InputObjectiveView, InputStory, InputStoryView,
};
use crate::resolver::{Resolver, ResolverView};
use crate::template::{rendered, Template};
use crate::text::texts;
use vstd::prelude::*;

verus! {

/// The labels of a request: none for no names, else one per name.
pub open spec fn labels_of(names: Seq<Seq<char>>) -> Option<Seq<Seq<char>>> {
    if names.len() == 0 {
        None
    } else {
        Some(names)
    }
}

/// The labels of a request: none for no names, else one per name, in order.
pub fn labels_param(names: &[String]) -> (r: Option<Vec<CreateLabelParams>>)
    ensures
        opt_label_names(r) == labels_of(texts(names@)),
{
    if names.len() == 0 {
        None
    } else {
        let mut labels: Vec<CreateLabelParams> = Vec::new();
        let mut i: usize = 0;
        while i < names.len()
            invariant
                i <= names.len(),
                labels@.len() == i,
                forall|k: int| 0 <= k < i ==> (#[trigger] labels@[k])@ == names@[k]@,
            decreases names.len() - i,
        {
            labels.push(CreateLabelParams { name: names[i].clone() });
            i = i + 1;
        }
        proof {
            assert(label_names(labels@) =~= texts(names@));
        }
        Some(labels)
    }
}

/// The request that creates `objective`: its fields as they are.
pub open spec fn objective_request(objective: InputObjectiveView) -> CreateObjectiveRequestView {
    CreateObjectiveRequestView {
        name: objective.name,
        description: objective.description,
        state: objective.state,
    }
}

/// The request that creates `input`.
pub fn build_objective_request(input: &InputObjective) -> (r: CreateObjectiveRequest)
    ensures
        r@ == objective_request(input@),
{
    CreateObjectiveRequest {
        name: input.name.clone(),
        description: input.description.clone(),
        state: input.state.clone(),
    }
}

/// The identifiers of a list of references: none for an empty list, else
/// what `resolved` holds.
pub open spec fn optional_ids(
    names: Seq<Seq<char>>,
    resolved: Result<Seq<Seq<char>>, ErrorView>,
) -> Result<Option<Seq<Seq<char>>>, ErrorView> {
    if names.len() == 0 {
        Ok(None)
    } else {
        match resolved {
            Ok(ids) => Ok(Some(ids)),
            Err(e) => Err(e),
        }
    }
}

/// The identifier of an optional reference: none for none, else what
/// `resolved` holds.
pub open spec fn optional_id<T>(name: Option<Seq<char>>, resolved: Result<T, ErrorView>) -> Result<
    Option<T>,
    ErrorView,
> {
    match name {
        None => Ok(None),
        Some(_) => match resolved {
            Ok(id) => Ok(Some(id)),
            Err(e) => Err(e),
        },
    }
}

/// The name in `o`, or the empty name; only used where `o` holds one.
pub open spec fn named(o: Option<Seq<char>>) -> Seq<char> {
    match o {
        Some(name) => name,
        None => Seq::empty(),
    }
}

/// The description that an epic is created with: what the template renders
/// for it, if there is a template, and else its own description.
pub open spec fn epic_description(epic: InputEpicView, template: Option<Seq<char>>) -> Option<
    Seq<char>,
> {
    match template {
        Some(content) => Some(rendered(content, epic)),
        None => epic.description,
    }
}

/// The request that creates `epic`, or the error of the first of its
/// references that does not resolve: the owners first, then the teams, then
/// the objective.
pub open spec fn epic_request(
    epic: InputEpicView,
    resolver: ResolverView,
    template: Option<Seq<char>>,
) -> Result<CreateEpicRequestView, ErrorView> {
    match optional_ids(epic.owners, resolver.resolve_members(epic.owners)) {
        Err(e) => Err(e),
        Ok(owner_ids) => match optional_ids(epic.teams, resolver.resolve_groups(epic.teams)) {
            Err(e) => Err(e),
            Ok(group_ids) => match optional_id(
                epic.objective,
                resolver.resolve_objective(named(epic.objective)),
            ) {
                Err(e) => Err(e),
                Ok(objective_id) => Ok(
                    CreateEpicRequestView {
                        name: epic.name,
                        description: epic_description(epic, template),
                        state: epic.state,
                        objective_ids: match objective_id {
                            Some(id) => Some(seq![id]),
                            None => None,
                        },
                        owner_ids,
                        group_ids,
                        labels: labels_of(epic.labels),
                        planned_start_date: epic.start_date,
                        deadline: epic.deadline,
                    },
                ),
            },
        },
    }
}

/// A result with its request, or its error, as its view.
pub open spec fn epic_result(r: Result<CreateEpicRequest, BypassError>) -> Result<
    CreateEpicRequestView,
    ErrorView,
> {
    match r {
        Ok(request) => Ok(request@),
        Err(e) => Err(e@),
    }
}

/// The request that creates `input`, with the description that `template`
/// renders if there is one.
pub fn build_epic_request(input: &InputEpic, resolver: &Resolver, template: Option<&Template>) -> (r:
    Result<CreateEpicRequest, BypassError>)
    ensures
        epic_result(r) == epic_request(
            input@,
            resolver@,
            match template {
                Some(t) => Some(t@),
                None => None,
            },
        ),
{
    let owner_ids = if input.owners.len() == 0 {
        None
    } else {
        match resolver.resolve_members(input.owners.as_slice()) {
            Ok(ids) => Some(ids),
            Err(e) => return Err(e),
        }
    };
    let group_ids = if input.teams.len() == 0 {
        None
    } else {
        match resolver.resolve_groups(input.teams.as_slice()) {
            Ok(ids) => Some(ids),
            Err(e) => return Err(e),
        }
    };
    let objective_ids = match &input.objective {
        None => None,
        Some(name) => match resolver.resolve_objective(name.as_str()) {
            Ok(id) => {
                let mut ids: Vec<i64> = Vec::new();
                ids.push(id);
                proof {
                    assert(ids@ =~= seq![id]);
                }
                Some(ids)
            },
            Err(e) => return Err(e),
        },
    };
    let labels = labels_param(input.labels.as_slice());
    let description = match template {
        Some(t) => Some(t.render(input)),
        None => input.description.clone(),
    };
    Ok(
        CreateEpicRequest {
            name: input.name.clone(),
            description,
            state: input.state.clone(),
            objective_ids,
            owner_ids,
            group_ids,
            labels,
            planned_start_date: input.start_date.clone(),
            deadline: input.deadline.clone(),
        },
    )
}

/// The workflow stage that a story is created in: the stage it names, if it
/// names one, and else the default stage of the workspace.
pub open spec fn story_stage(story: InputStoryView, resolver: ResolverView) -> Result<
    Option<i64>,
    ErrorView,
> {
    match story.workflow_state {
        Some(name) => match resolver.resolve_workflow_state(name) {
            Ok(id) => Ok(Some(id)),
            Err(e) => Err(e),
        },
        None => Ok(resolver.default_stage),
    }
}

/// The request that creates `story`, or the error of the first of its
/// references that does not resolve: the owners first, then the team, then
/// the epic, then the workflow stage.
pub open spec fn story_request(story: InputStoryView, resolver: ResolverView) -> Result<
    CreateStoryRequestView,
    ErrorView,
> {
    match optional_ids(story.owners, resolver.resolve_members(story.owners)) {
        Err(e) => Err(e),
        Ok(owner_ids) => match optional_id(story.team, resolver.resolve_group(named(story.team))) {
            Err(e) => Err(e),
            Ok(group_id) => match optional_id(
                story.epic,
                resolver.resolve_epic(named(story.epic)),
            ) {
                Err(e) => Err(e),
                Ok(epic_id) => match story_stage(story, resolver) {
                    Err(e) => Err(e),
                    Ok(workflow_state_id) => Ok(
                        CreateStoryRequestView {
                            name: story.name,
                            story_type: story.story_type,
                            description: story.description,
                            owner_ids,
                            group_id,
                            epic_id,
                            workflow_state_id,
                            labels: labels_of(story.labels),
                            estimate: story.estimate,
                            deadline: story.due_date,
                        },
                    ),
                },
            },
        },
    }
}

/// A result with its request, or its error, as its view.
pub open spec fn story_result(r: Result<CreateStoryRequest, BypassError>) -> Result<
    CreateStoryRequestView,
    ErrorView,
> {
    match r {
        Ok(request) => Ok(request@),
        Err(e) => Err(e@),
    }
}

/// The request that creates `input`.
pub fn build_story_request(input: &InputStory, resolver: &Resolver) -> (r: Result<
    CreateStoryRequest,
    BypassError,
>)
    ensures
        story_result(r) == story_request(input@, resolver@),
{
    let owner_ids = if input.owners.len() == 0 {
        None
    } else {
        match resolver.resolve_members(input.owners.as_slice()) {
            Ok(ids) => Some(ids),
            Err(e) => return Err(e),
        }
    };
    let group_id = match &input.team {
        None => None,
        Some(name) => match resolver.resolve_group(name.as_str()) {
            Ok(id) => Some(id),
            Err(e) => return Err(e),
        },
    };
    let epic_id = match &input.epic {
        None => None,
        Some(name) => match resolver.resolve_epic(name.as_str()) {
            Ok(id) => Some(id),
            Err(e) => return Err(e),
        },
    };
    let workflow_state_id = match &input.workflow_state {
        Some(name) => match resolver.resolve_workflow_state(name.as_str()) {
            Ok(id) => Some(id),
            Err(e) => return Err(e),
        },
        None => resolver.default_workflow_state_id,
    };
    let labels = labels_param(input.labels.as_slice());
    Ok(
        CreateStoryRequest {
            name: input.name.clone(),
            story_type: input.story_type.clone(),
            description: input.description.clone(),
            owner_ids,
            group_id,
            epic_id,
            workflow_state_id,
            labels,
            estimate: input.estimate,
            deadline: input.due_date.clone(),
        },
    )
}

/// A story that names no workflow stage is created in the default stage of
/// the workspace.
pub proof fn lemma_story_without_stage(story: InputStoryView, resolver: ResolverView)
    requires
        story.workflow_state is None,
    ensures
        story_request(story, resolver) matches Ok(request) ==> request.workflow_state_id
            == resolver.default_stage,
{
}

} // verus!
