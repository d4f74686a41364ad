//! Records read from the rows of a CSV file.
//!
//! A row holds every column as text. A cell that is empty once trimmed
//! stands for no value; a cell of several values separates them by
//! semicolons, the comma being the separator of the columns.

use crate::input::models::{
    list_values, split_list, InputEpic, InputEpicView, InputFile, InputFileView, InputObjective,
    InputObjectiveView, InputStory, InputStoryView,
};
use crate::text::{
    decimal, decimal_text, opt_text, parse_i64, parsed_i64, texts, trim, trimmed,
};
use vstd::prelude::*;
use vstd::string::*;

verus! {

/// The values of a cell that holds several, separated by semicolons.
pub fn split_semi(value: &str) -> (r: Vec<String>)
    ensures
        texts(r@) == list_values(value@, ';'),
{
    split_list(value, ';')
}

/// The value of a cell: its text trimmed, or nothing if that is empty.
pub open spec fn cell_value(s: Seq<char>) -> Option<Seq<char>> {
    if trimmed(s).len() == 0 {
        None
    } else {
        Some(trimmed(s))
    }
}

/// The value of a cell: its text trimmed, or nothing if that is empty.
pub fn opt_str(s: String) -> (r: Option<String>)
    ensures
        opt_text(r) == cell_value(s@),
{
    let t = trim(s.as_str());
    if t.is_empty() {
        None
    } else {
        Some(t.to_owned())
    }
}

/// A row of a file of objectives.
#[derive(Debug, Clone)]
pub struct ObjRow {
    pub name: String,
    pub description: String,
    pub state: String,
}

pub struct ObjRowView {
    pub name: Seq<char>,
    pub description: Seq<char>,
    pub state: Seq<char>,
}

impl View for ObjRow {
    type V = ObjRowView;

    open spec fn view(&self) -> ObjRowView {
        ObjRowView { name: self.name@, description: self.description@, state: self.state@ }
    }
}

/// The objective that a row stands for.
pub open spec fn objective_of_row(r: ObjRowView) -> InputObjectiveView {
    InputObjectiveView {
        name: trimmed(r.name),
        description: cell_value(r.description),
        state: cell_value(r.state),
    }
}

/// The objective that a row stands for.
pub fn row_to_objective(r: ObjRow) -> (o: InputObjective)
    ensures
        o@ == objective_of_row(r@),
{
    InputObjective {
        name: trim(r.name.as_str()).to_owned(),
        description: opt_str(r.description),
        state: opt_str(r.state),
    }
}

/// A row of a file of epics.
#[derive(Debug, Clone)]
pub struct EpicRow {
    pub name: String,
    pub description: String,
    pub objective: String,
    pub owners: String,
    pub teams: String,
    pub labels: String,
    pub state: String,
    pub start_date: String,
    pub deadline: String,
    pub template: String,
}

pub struct EpicRowView {
    pub name: Seq<char>,
    pub description: Seq<char>,
    pub objective: Seq<char>,
    pub owners: Seq<char>,
    pub teams: Seq<char>,
    pub labels: Seq<char>,
    pub state: Seq<char>,
    pub start_date: Seq<char>,
    pub deadline: Seq<char>,
    pub template: Seq<char>,
}

impl View for EpicRow {
    type V = EpicRowView;

    open spec fn view(&self) -> EpicRowView {
        EpicRowView {
            name: self.name@,
            description: self.description@,
            objective: self.objective@,
            owners: self.owners@,
            teams: self.teams@,
            labels: self.labels@,
            state: self.state@,
            start_date: self.start_date@,
            deadline: self.deadline@,
            template: self.template@,
        }
    }
}

/// The epic that a row stands for.
pub open spec fn epic_of_row(r: EpicRowView) -> InputEpicView {
    InputEpicView {
        name: trimmed(r.name),
        description: cell_value(r.description),
        objective: cell_value(r.objective),
        owners: list_values(r.owners, ';'),
        teams: list_values(r.teams, ';'),
        labels: list_values(r.labels, ';'),
        state: cell_value(r.state),
        start_date: cell_value(r.start_date),
        deadline: cell_value(r.deadline),
        template: cell_value(r.template),
    }
}

/// The epic that a row stands for.
pub fn row_to_epic(r: EpicRow) -> (e: InputEpic)
    ensures
        e@ == epic_of_row(r@),
{
    InputEpic {
        name: trim(r.name.as_str()).to_owned(),
        description: opt_str(r.description),
        objective: opt_str(r.objective),
        owners: split_semi(r.owners.as_str()),
        teams: split_semi(r.teams.as_str()),
        labels: split_semi(r.labels.as_str()),
        state: opt_str(r.state),
        start_date: opt_str(r.start_date),
        deadline: opt_str(r.deadline),
        template: opt_str(r.template),
    }
}

/// A row of a file of stories.
#[derive(Debug, Clone)]
pub struct StoryRow {
    pub name: String,
    pub story_type: String,
    pub description: String,
    pub epic: String,
    pub owners: String,
    pub team: String,
    pub labels: String,
    /// The point estimate as text; an empty cell stands for none.
    pub estimate: String,
    pub due_date: String,
    pub workflow_state: String,
}

pub struct StoryRowView {
    pub name: Seq<char>,
    pub story_type: Seq<char>,
    pub description: Seq<char>,
    pub epic: Seq<char>,
    pub owners: Seq<char>,
    pub team: Seq<char>,
    pub labels: Seq<char>,
    pub estimate: Seq<char>,
    pub due_date: Seq<char>,
    pub workflow_state: Seq<char>,
}

impl View for StoryRow {
    type V = StoryRowView;

    open spec fn view(&self) -> StoryRowView {
        StoryRowView {
            name: self.name@,
            story_type: self.story_type@,
            description: self.description@,
            epic: self.epic@,
            owners: self.owners@,
            team: self.team@,
            labels: self.labels@,
            estimate: self.estimate@,
            due_date: self.due_date@,
            workflow_state: self.workflow_state@,
        }
    }
}

/// The story that a row stands for. An estimate that writes no number
/// stands for none.
pub open spec fn story_of_row(r: StoryRowView) -> InputStoryView {
    InputStoryView {
        name: trimmed(r.name),
        story_type: cell_value(r.story_type),
        description: cell_value(r.description),
        epic: cell_value(r.epic),
        owners: list_values(r.owners, ';'),
        team: cell_value(r.team),
        labels: list_values(r.labels, ';'),
        estimate: parsed_i64(trimmed(r.estimate)),
        due_date: cell_value(r.due_date),
        workflow_state: cell_value(r.workflow_state),
    }
}

/// The story that a row stands for.
pub fn row_to_story(r: StoryRow) -> (s: InputStory)
    ensures
        s@ == story_of_row(r@),
{
    InputStory {
        name: trim(r.name.as_str()).to_owned(),
        story_type: opt_str(r.story_type),
        description: opt_str(r.description),
        epic: opt_str(r.epic),
        owners: split_semi(r.owners.as_str()),
        team: opt_str(r.team),
        labels: split_semi(r.labels.as_str()),
        estimate: parse_i64(trim(r.estimate.as_str())),
        due_date: opt_str(r.due_date),
        workflow_state: opt_str(r.workflow_state),
    }
}

/// The rows of a file, which holds records of one kind.
#[derive(Debug)]
pub enum Rows {
    Objectives(Vec<ObjRow>),
    Epics(Vec<EpicRow>),
    Stories(Vec<StoryRow>),
}

pub enum RowsView {
    Objectives(Seq<ObjRowView>),
    Epics(Seq<EpicRowView>),
    Stories(Seq<StoryRowView>),
}

impl View for Rows {
    type V = RowsView;

    open spec fn view(&self) -> RowsView {
        match *self {
            Rows::Objectives(rows) => RowsView::Objectives(rows@.map_values(|r: ObjRow| r@)),
            Rows::Epics(rows) => RowsView::Epics(rows@.map_values(|r: EpicRow| r@)),
            Rows::Stories(rows) => RowsView::Stories(rows@.map_values(|r: StoryRow| r@)),
        }
    }
}

/// The batch that the rows of a file stand for: one record per row, in the
/// order of the rows, and nothing of the other two kinds.
pub open spec fn batch_of_rows(rows: RowsView) -> InputFileView {
    match rows {
        RowsView::Objectives(rows) => InputFileView {
            objectives: rows.map_values(|r: ObjRowView| objective_of_row(r)),
            epics: Seq::empty(),
            stories: Seq::empty(),
        },
        RowsView::Epics(rows) => InputFileView {
            objectives: Seq::empty(),
            epics: rows.map_values(|r: EpicRowView| epic_of_row(r)),
            stories: Seq::empty(),
        },
        RowsView::Stories(rows) => InputFileView {
            objectives: Seq::empty(),
            epics: Seq::empty(),
            stories: rows.map_values(|r: StoryRowView| story_of_row(r)),
        },
    }
}

/// The batch that the rows of a file stand for.
pub fn parse(rows: Rows) -> (r: InputFile)
    ensures
        r@ == batch_of_rows(rows@),
{
    let mut objectives: Vec<InputObjective> = Vec::new();
    let mut epics: Vec<InputEpic> = Vec::new();
    let mut stories: Vec<InputStory> = Vec::new();
    match rows {
        Rows::Objectives(list) => {
            let ghost all = list@;
            for row in it: list.into_iter()
                invariant
                    it.seq() == all,
                    objectives@.len() == it.index(),
                    forall|k: int|
                        0 <= k < it.index() ==> (#[trigger] objectives@[k])@ == objective_of_row(
                            all[k]@,
                        ),
            {
                objectives.push(row_to_objective(row));
            }
        },
        Rows::Epics(list) => {
            let ghost all = list@;
            for row in it: list.into_iter()
                invariant
                    it.seq() == all,
                    epics@.len() == it.index(),
                    forall|k: int|
                        0 <= k < it.index() ==> (#[trigger] epics@[k])@ == epic_of_row(all[k]@),
            {
                epics.push(row_to_epic(row));
            }
        },
        Rows::Stories(list) => {
            let ghost all = list@;
            for row in it: list.into_iter()
                invariant
                    it.seq() == all,
                    stories@.len() == it.index(),
                    forall|k: int|
                        0 <= k < it.index() ==> (#[trigger] stories@[k])@ == story_of_row(all[k]@),
            {
                stories.push(row_to_story(row));
            }
        },
    }
    let r = InputFile { objectives, epics, stories };
    proof {
        assert(r@.objectives =~= batch_of_rows(rows@).objectives);
        assert(r@.epics =~= batch_of_rows(rows@).epics);
        assert(r@.stories =~= batch_of_rows(rows@).stories);
    }
    r
}

/// The message for a row that could not be read. `index` counts the rows
/// from 0; the message counts the lines of the file from 1, the header
/// being the first.
pub open spec fn row_error_text(index: nat, detail: Seq<char>) -> Seq<char> {
    "CSV row "@ + decimal_text(index + 2) + " parse error: "@ + detail
}

/// The message for a row that could not be read.
pub fn row_error(index: usize, detail: &str) -> (r: String)
    requires
        index + 2 <= usize::MAX,
    ensures
        r@ == row_error_text(index as nat, detail@),
{
    let mut r = "CSV row ".to_owned();
    r.append(decimal((index + 2) as u64).as_str());
    r.append(" parse error: ");
    r.append(detail);
    r
}

} // verus!
