//! The pending records of a batch.

use crate::text::{lemma_texts_push, opt_text, split, split_by, texts, trim, trimmed};
use vstd::prelude::*;

verus! {

/// An objective to create.
#[derive(Debug, Clone)]
pub struct InputObjective {
    pub name: String,
    pub description: Option<String>,
    /// "in progress", "to do" or "done".
    pub state: Option<String>,
}

pub struct InputObjectiveView {
    pub name: Seq<char>,
    pub description: Option<Seq<char>>,
    pub state: Option<Seq<char>>,
}

impl View for InputObjective {
    type V = InputObjectiveView;

    open spec fn view(&self) -> InputObjectiveView {
        InputObjectiveView {
            name: self.name@,
            description: opt_text(self.description),
            state: opt_text(self.state),
        }
    }
}

/// An epic to create.
#[derive(Debug, Clone)]
pub struct InputEpic {
    pub name: String,
    pub description: Option<String>,
    /// The name of an objective of this batch, or the number of one that
    /// exists.
    pub objective: Option<String>,
    /// The names of the owners.
    pub owners: Vec<String>,
    /// The names of the teams.
    pub teams: Vec<String>,
    /// The names of the labels.
    pub labels: Vec<String>,
    /// "in progress", "to do" or "done".
    pub state: Option<String>,
    /// An ISO 8601 date.
    pub start_date: Option<String>,
    /// An ISO 8601 date.
    pub deadline: Option<String>,
    /// The path of a template for the description of this epic.
    pub template: Option<String>,
}

pub struct InputEpicView {
    pub name: Seq<char>,
    pub description: Option<Seq<char>>,
    pub objective: Option<Seq<char>>,
    pub owners: Seq<Seq<char>>,
    pub teams: Seq<Seq<char>>,
    pub labels: Seq<Seq<char>>,
    pub state: Option<Seq<char>>,
    pub start_date: Option<Seq<char>>,
    pub deadline: Option<Seq<char>>,
    pub template: Option<Seq<char>>,
}

impl View for InputEpic {
    type V = InputEpicView;

    open spec fn view(&self) -> InputEpicView {
        InputEpicView {
            name: self.name@,
            description: opt_text(self.description),
            objective: opt_text(self.objective),
            owners: texts(self.owners@),
            teams: texts(self.teams@),
            labels: texts(self.labels@),
            state: opt_text(self.state),
            start_date: opt_text(self.start_date),
            deadline: opt_text(self.deadline),
            template: opt_text(self.template),
        }
    }
}

/// A story to create.
#[derive(Debug, Clone)]
pub struct InputStory {
    pub name: String,
    /// "feature", "bug" or "chore".
    pub story_type: Option<String>,
    pub description: Option<String>,
    /// The name of an epic of this batch, or the number of one that exists.
    pub epic: Option<String>,
    /// The names of the owners.
    pub owners: Vec<String>,
    /// The name of the one team.
    pub team: Option<String>,
    /// The names of the labels.
    pub labels: Vec<String>,
    /// The point estimate.
    pub estimate: Option<i64>,
    /// An ISO 8601 date.
    pub due_date: Option<String>,
    /// The name of the workflow stage to start in.
    pub workflow_state: Option<String>,
}

pub struct InputStoryView {
    pub name: Seq<char>,
    pub story_type: Option<Seq<char>>,
    pub description: Option<Seq<char>>,
    pub epic: Option<Seq<char>>,
    pub owners: Seq<Seq<char>>,
    pub team: Option<Seq<char>>,
    pub labels: Seq<Seq<char>>,
    pub estimate: Option<i64>,
    pub due_date: Option<Seq<char>>,
    pub workflow_state: Option<Seq<char>>,
}

impl View for InputStory {
    type V = InputStoryView;

    open spec fn view(&self) -> InputStoryView {
        InputStoryView {
            name: self.name@,
            story_type: opt_text(self.story_type),
            description: opt_text(self.description),
            epic: opt_text(self.epic),
            owners: texts(self.owners@),
            team: opt_text(self.team),
            labels: texts(self.labels@),
            estimate: self.estimate,
            due_date: opt_text(self.due_date),
            workflow_state: opt_text(self.workflow_state),
        }
    }
}

/// A batch: the objectives, epics and stories to create, each list in the
/// order of the input.
#[derive(Debug, Default)]
pub struct InputFile {
    pub objectives: Vec<InputObjective>,
    pub epics: Vec<InputEpic>,
    pub stories: Vec<InputStory>,
}

pub struct InputFileView {
    pub objectives: Seq<InputObjectiveView>,
    pub epics: Seq<InputEpicView>,
    pub stories: Seq<InputStoryView>,
}

impl View for InputFile {
    type V = InputFileView;

    open spec fn view(&self) -> InputFileView {
        InputFileView {
            objectives: self.objectives@.map_values(|o: InputObjective| o@),
            epics: self.epics@.map_values(|e: InputEpic| e@),
            stories: self.stories@.map_values(|s: InputStory| s@),
        }
    }
}

/// The parts of `pieces`, trimmed, that are not empty, in order.
pub open spec fn trimmed_parts(pieces: Seq<Seq<char>>) -> Seq<Seq<char>>
    decreases pieces.len(),
{
    if pieces.len() == 0 {
        Seq::empty()
    } else {
        let before = trimmed_parts(pieces.drop_last());
        let part = trimmed(pieces.last());
        if part.len() == 0 {
            before
        } else {
            before.push(part)
        }
    }
}

/// The values of a list written as one string: the parts between the
/// occurrences of `sep`, trimmed, without the empty ones.
pub open spec fn list_values(s: Seq<char>, sep: char) -> Seq<Seq<char>> {
    trimmed_parts(split_by(s, sep))
}

/// Splits a list written as one string at `sep`, trims the parts and drops
/// the empty ones.
pub fn split_list(s: &str, sep: char) -> (r: Vec<String>)
    ensures
        texts(r@) == list_values(s@, sep),
{
    let pieces = split(s, sep);
    let mut parts: Vec<String> = Vec::new();
    let mut i: usize = 0;
    proof {
        assert(texts(pieces@).take(0).len() == 0);
        assert(texts(parts@) =~= Seq::<Seq<char>>::empty());
    }
    while i < pieces.len()
        invariant
            i <= pieces.len(),
            texts(parts@) == trimmed_parts(texts(pieces@).take(i as int)),
        decreases pieces.len() - i,
    {
        proof {
            let all = texts(pieces@);
            assert(all.take(i + 1).drop_last() == all.take(i as int));
            assert(all.take(i + 1).last() == pieces@[i as int]@);
        }
        let part = trim(pieces[i].as_str());
        if !part.is_empty() {
            let owned = part.to_owned();
            proof {
                lemma_texts_push(parts@, owned);
            }
            parts.push(owned);
        }
        i = i + 1;
    }
    proof {
        assert(texts(pieces@).take(pieces.len() as int) == texts(pieces@));
    }
    parts
}

/// The values of a list written with commas.
pub fn split_comma(s: &str) -> (r: Vec<String>)
    ensures
        texts(r@) == list_values(s@, ','),
{
    split_list(s, ',')
}

/// Each string of `items`, trimmed.
pub open spec fn all_trimmed(items: Seq<Seq<char>>) -> Seq<Seq<char>> {
    items.map_values(|s: Seq<char>| trimmed(s))
}

/// The values of a list written as a sequence: each item trimmed, the empty
/// ones kept.
pub fn trim_all(items: &Vec<String>) -> (r: Vec<String>)
    ensures
        texts(r@) == all_trimmed(texts(items@)),
{
    let mut out: Vec<String> = Vec::new();
    let mut i: usize = 0;
    while i < items.len()
        invariant
            i <= items.len(),
            out@.len() == i,
            forall|k: int| 0 <= k < i ==> (#[trigger] out@[k])@ == trimmed(items@[k]@),
        decreases items.len() - i,
    {
        out.push(trim(items[i].as_str()).to_owned());
        i = i + 1;
    }
    proof {
        assert(texts(out@) =~= all_trimmed(texts(items@)));
    }
    out
}

} // verus!
