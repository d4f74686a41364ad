//! Templates for the description of an epic.
//!
//! A template is a text with placeholders in double braces: `{{name}}`,
//! `{{description}}`, `{{objective}}`, `{{start_date}}`, `{{deadline}}`,
//! `{{owners}}`, `{{teams}}` and `{{labels}}`. Rendering replaces each by the
//! value the epic has for it, a missing value by nothing and a list by its
//! items separated by a comma and a space. Other placeholders stay.

use crate::input::models::{InputEpic, InputEpicView};
use crate::text::{join, joined, opt_text, replace, replaced};
use vstd::prelude::*;
use vstd::string::*;

verus! {

/// The text in `o`, or the empty text.
pub open spec fn text_or_empty(o: Option<Seq<char>>) -> Seq<char> {
    match o {
        Some(s) => s,
        None => Seq::empty(),
    }
}

/// What a template of text `content` renders to for `epic`. The
/// placeholders are replaced one kind after the other, in the order given
/// here, so that a placeholder that an earlier value brings in is replaced
/// as well if its kind comes later.
pub open spec fn rendered(content: Seq<char>, epic: InputEpicView) -> Seq<char> {
    let named = replaced(content, "{{name}}"@, epic.name);
    let described = replaced(named, "{{description}}"@, text_or_empty(epic.description));
    let linked = replaced(described, "{{objective}}"@, text_or_empty(epic.objective));
    let started = replaced(linked, "{{start_date}}"@, text_or_empty(epic.start_date));
    let due = replaced(started, "{{deadline}}"@, text_or_empty(epic.deadline));
    let owned = replaced(due, "{{owners}}"@, joined(epic.owners, ", "@));
    let teamed = replaced(owned, "{{teams}}"@, joined(epic.teams, ", "@));
    replaced(teamed, "{{labels}}"@, joined(epic.labels, ", "@))
}

/// The text in `o`, or the empty text.
fn or_empty(o: &Option<String>) -> (r: &str)
    ensures
        r@ == text_or_empty(opt_text(*o)),
{
    match o {
        Some(s) => s.as_str(),
        None => {
            proof {
                reveal_strlit("");
                assert(""@ =~= Seq::<char>::empty());
            }
            ""
        },
    }
}

/// A template for the description of an epic.
#[derive(Debug, Clone)]
pub struct Template {
    content: String,
}

impl View for Template {
    type V = Seq<char>;

    closed spec fn view(&self) -> Seq<char> {
        self.content@
    }
}

impl Template {
    /// The template with the text `content`.
    pub fn new(content: String) -> (r: Template)
        ensures
            r@ == content@,
    {
        Template { content }
    }

    /// The text of the template.
    pub fn content(&self) -> (r: &str)
        ensures
            r@ == self@,
    {
        self.content.as_str()
    }

    /// The description of `epic` by this template.
    pub fn render(&self, epic: &InputEpic) -> (r: String)
        ensures
            r@ == rendered(self@, epic@),
    {
        proof {
            reveal_strlit("{{name}}");
            reveal_strlit("{{description}}");
            reveal_strlit("{{objective}}");
            reveal_strlit("{{start_date}}");
            reveal_strlit("{{deadline}}");
            reveal_strlit("{{owners}}");
            reveal_strlit("{{teams}}");
            reveal_strlit("{{labels}}");
        }
        let owners = join(&epic.owners, ", ");
        let teams = join(&epic.teams, ", ");
        let labels = join(&epic.labels, ", ");
        let named = replace(self.content.as_str(), "{{name}}", epic.name.as_str());
        let described = replace(named.as_str(), "{{description}}", or_empty(&epic.description));
        let linked = replace(described.as_str(), "{{objective}}", or_empty(&epic.objective));
        let started = replace(linked.as_str(), "{{start_date}}", or_empty(&epic.start_date));
        let due = replace(started.as_str(), "{{deadline}}", or_empty(&epic.deadline));
        let owned = replace(due.as_str(), "{{owners}}", owners.as_str());
        let teamed = replace(owned.as_str(), "{{teams}}", teams.as_str());
        replace(teamed.as_str(), "{{labels}}", labels.as_str())
    }
}

} // verus!
