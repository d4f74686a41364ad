//! The values exchanged with the remote API, each with a view that holds its
//! strings as sequences of characters.

use crate::text::{opt_text, texts};
use vstd::prelude::*;

verus! {

/// A label to attach, given by its name.
#[derive(Debug, Clone)]
pub struct CreateLabelParams {
    pub name: String,
}

impl View for CreateLabelParams {
    type V = Seq<char>;

    open spec fn view(&self) -> Seq<char> {
        self.name@
    }
}

/// The names of the labels of `v`.
pub open spec fn label_names(v: Seq<CreateLabelParams>) -> Seq<Seq<char>> {
    v.map_values(|l: CreateLabelParams| l@)
}

/// The names of the labels in `o`, if there are any.
pub open spec fn opt_label_names(o: Option<Vec<CreateLabelParams>>) -> Option<Seq<Seq<char>>> {
    match o {
        Some(v) => Some(label_names(v@)),
        None => None,
    }
}

/// The characters of each string in `o`, if there are any.
pub open spec fn opt_texts(o: Option<Vec<String>>) -> Option<Seq<Seq<char>>> {
    match o {
        Some(v) => Some(texts(v@)),
        None => None,
    }
}

/// The numbers in `o`, if there are any.
pub open spec fn opt_ids(o: Option<Vec<i64>>) -> Option<Seq<i64>> {
    match o {
        Some(v) => Some(v@),
        None => None,
    }
}

/// The request that creates an objective.
#[derive(Debug, Default)]
pub struct CreateObjectiveRequest {
    pub name: String,
    pub description: Option<String>,
    /// "in progress", "to do" or "done".
    pub state: Option<String>,
}

pub struct CreateObjectiveRequestView {
    pub name: Seq<char>,
    pub description: Option<Seq<char>>,
    pub state: Option<Seq<char>>,
}

impl View for CreateObjectiveRequest {
    type V = CreateObjectiveRequestView;

    open spec fn view(&self) -> CreateObjectiveRequestView {
        CreateObjectiveRequestView {
            name: self.name@,
            description: opt_text(self.description),
            state: opt_text(self.state),
        }
    }
}

/// An objective as the API returns it.
#[derive(Debug)]
pub struct Objective {
    pub id: i64,
    pub name: String,
    pub description: Option<String>,
    pub state: String,
    pub app_url: Option<String>,
}

/// The request that creates an epic.
#[derive(Debug, Default)]
pub struct CreateEpicRequest {
    pub name: String,
    pub description: Option<String>,
    /// "in progress", "to do" or "done".
    pub state: Option<String>,
    /// The objectives that the epic belongs to.
    pub objective_ids: Option<Vec<i64>>,
    /// The identifiers of the owners.
    pub owner_ids: Option<Vec<String>>,
    /// The identifiers of the teams.
    pub group_ids: Option<Vec<String>>,
    pub labels: Option<Vec<CreateLabelParams>>,
    /// An ISO 8601 date.
    pub planned_start_date: Option<String>,
    /// An ISO 8601 date.
    pub deadline: Option<String>,
}

pub struct CreateEpicRequestView {
    pub name: Seq<char>,
    pub description: Option<Seq<char>>,
    pub state: Option<Seq<char>>,
    pub objective_ids: Option<Seq<i64>>,
    pub owner_ids: Option<Seq<Seq<char>>>,
    pub group_ids: Option<Seq<Seq<char>>>,
    pub labels: Option<Seq<Seq<char>>>,
    pub planned_start_date: Option<Seq<char>>,
    pub deadline: Option<Seq<char>>,
}

impl View for CreateEpicRequest {
    type V = CreateEpicRequestView;

    open spec fn view(&self) -> CreateEpicRequestView {
        CreateEpicRequestView {
            name: self.name@,
            description: opt_text(self.description),
            state: opt_text(self.state),
            objective_ids: opt_ids(self.objective_ids),
            owner_ids: opt_texts(self.owner_ids),
            group_ids: opt_texts(self.group_ids),
            labels: opt_label_names(self.labels),
            planned_start_date: opt_text(self.planned_start_date),
            deadline: opt_text(self.deadline),
        }
    }
}

/// An epic as the API returns it.
#[derive(Debug)]
pub struct Epic {
    pub id: i64,
    pub name: String,
    pub description: Option<String>,
    pub state: String,
    pub app_url: Option<String>,
}

/// The request that creates a story.
#[derive(Debug, Default)]
pub struct CreateStoryRequest {
    pub name: String,
    /// "feature", "bug" or "chore".
    pub story_type: Option<String>,
    pub description: Option<String>,
    /// The identifiers of the owners.
    pub owner_ids: Option<Vec<String>>,
    /// The identifier of the one team.
    pub group_id: Option<String>,
    /// The epic that the story belongs to.
    pub epic_id: Option<i64>,
    /// The workflow stage that the story starts in.
    pub workflow_state_id: Option<i64>,
    pub labels: Option<Vec<CreateLabelParams>>,
    /// The point estimate.
    pub estimate: Option<i64>,
    /// An ISO 8601 date.
    pub deadline: Option<String>,
}

pub struct CreateStoryRequestView {
    pub name: Seq<char>,
    pub story_type: Option<Seq<char>>,
    pub description: Option<Seq<char>>,
    pub owner_ids: Option<Seq<Seq<char>>>,
    pub group_id: Option<Seq<char>>,
    pub epic_id: Option<i64>,
    pub workflow_state_id: Option<i64>,
    pub labels: Option<Seq<Seq<char>>>,
    pub estimate: Option<i64>,
    pub deadline: Option<Seq<char>>,
}

impl View for CreateStoryRequest {
    type V = CreateStoryRequestView;

    open spec fn view(&self) -> CreateStoryRequestView {
        CreateStoryRequestView {
            name: self.name@,
            story_type: opt_text(self.story_type),
            description: opt_text(self.description),
            owner_ids: opt_texts(self.owner_ids),
            group_id: opt_text(self.group_id),
            epic_id: self.epic_id,
            workflow_state_id: self.workflow_state_id,
            labels: opt_label_names(self.labels),
            estimate: self.estimate,
            deadline: opt_text(self.deadline),
        }
    }
}

/// A story as the API returns it.
#[derive(Debug)]
pub struct Story {
    pub id: i64,
    pub name: String,
    pub story_type: String,
    pub app_url: Option<String>,
}

/// A person of the workspace.
#[derive(Debug)]
pub struct Member {
    pub id: String,
    pub profile: MemberProfile,
    pub disabled: bool,
}

/// How a person is called.
#[derive(Debug)]
pub struct MemberProfile {
    pub name: String,
    pub mention_name: String,
    pub email_address: Option<String>,
}

pub struct MemberView {
    pub id: Seq<char>,
    pub name: Seq<char>,
    pub mention_name: Seq<char>,
    pub email_address: Option<Seq<char>>,
    pub disabled: bool,
}

impl View for Member {
    type V = MemberView;

    open spec fn view(&self) -> MemberView {
        MemberView {
            id: self.id@,
            name: self.profile.name@,
            mention_name: self.profile.mention_name@,
            email_address: opt_text(self.profile.email_address),
            disabled: self.disabled,
        }
    }
}

/// A team of the workspace.
#[derive(Debug)]
pub struct Group {
    pub id: String,
    pub name: String,
    pub mention_name: String,
    pub archived: bool,
}

pub struct GroupView {
    pub id: Seq<char>,
    pub name: Seq<char>,
    pub mention_name: Seq<char>,
    pub archived: bool,
}

impl View for Group {
    type V = GroupView;

    open spec fn view(&self) -> GroupView {
        GroupView {
            id: self.id@,
            name: self.name@,
            mention_name: self.mention_name@,
            archived: self.archived,
        }
    }
}

/// A workflow definition: its stages in order and the stage it declares as
/// its default.
#[derive(Debug)]
pub struct Workflow {
    pub id: i64,
    pub name: String,
    pub default_state_id: i64,
    pub states: Vec<WorkflowState>,
}

/// One stage of a workflow.
#[derive(Debug, Clone)]
pub struct WorkflowState {
    pub id: i64,
    pub name: String,
    /// The category of the stage, such as "unstarted", "started" or "done".
    pub state_type: String,
}

pub struct WorkflowStateView {
    pub id: i64,
    pub name: Seq<char>,
    pub state_type: Seq<char>,
}

impl View for WorkflowState {
    type V = WorkflowStateView;

    open spec fn view(&self) -> WorkflowStateView {
        WorkflowStateView { id: self.id, name: self.name@, state_type: self.state_type@ }
    }
}

pub struct WorkflowView {
    pub id: i64,
    pub name: Seq<char>,
    pub default_state_id: i64,
    pub states: Seq<WorkflowStateView>,
}

impl View for Workflow {
    type V = WorkflowView;

    open spec fn view(&self) -> WorkflowView {
        WorkflowView {
            id: self.id,
            name: self.name@,
            default_state_id: self.default_state_id,
            states: self.states@.map_values(|s: WorkflowState| s@),
        }
    }
}

/// The views of the members of `v`.
pub open spec fn member_views(v: Seq<Member>) -> Seq<MemberView> {
    v.map_values(|m: Member| m@)
}

/// The views of the groups of `v`.
pub open spec fn group_views(v: Seq<Group>) -> Seq<GroupView> {
    v.map_values(|g: Group| g@)
}

/// The views of the workflows of `v`.
pub open spec fn workflow_views(v: Seq<Workflow>) -> Seq<WorkflowView> {
    v.map_values(|w: Workflow| w@)
}

} // verus!
