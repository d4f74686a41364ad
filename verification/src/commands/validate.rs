//! Validation of a batch without creating anything.
//!
//! Every record is checked and every violation is kept: the list holds the
//! violations of the objectives, then of the epics, then of the stories,
//! each tier in the order of the input and each record's violations in the
//! order of its checks.

use crate::commands::hints::{list_sample, sample_of};
use crate::input::models::{
    InputEpic, InputEpicView, InputFile, InputFileView, InputObjective, InputObjectiveView,
    InputStory, InputStoryView,
};
use crate::name_map::NameMap;
use crate::resolver::{lemma_value_texts_dom, Resolver, ResolverView};
use crate::text::{lemma_texts_push, parse_i64, parsed_i64, same_text, texts, trim, trimmed};
use vstd::hash_map::StringHashMap;
use vstd::prelude::*;
use vstd::string::*;

verus! {

/// The violation of a record of kind `kind` without a name.
pub open spec fn required_text(kind: Seq<char>) -> Seq<char> {
    kind + ": 'name' is required"@
}

/// Whether `state` is a state that an objective or an epic can have.
pub open spec fn valid_state(state: Seq<char>) -> bool {
    state == "in progress"@ || state == "to do"@ || state == "done"@
}

/// The violation of the record `name` of kind `kind` with the state `state`.
pub open spec fn invalid_state_text(kind: Seq<char>, name: Seq<char>, state: Seq<char>) -> Seq<
    char,
> {
    kind + " '"@ + name + "': invalid state '"@ + state
        + "'. Must be 'in progress', 'to do', or 'done'"@
}

/// The violations of the state of a record, if it has one.
pub open spec fn state_violations(kind: Seq<char>, name: Seq<char>, state: Option<Seq<char>>)
    -> Seq<Seq<char>> {
    match state {
        Some(s) => if valid_state(s) {
            Seq::empty()
        } else {
            seq![invalid_state_text(kind, name, s)]
        },
        None => Seq::empty(),
    }
}

/// Whether `story_type` is a type that a story can have.
pub open spec fn valid_story_type(story_type: Seq<char>) -> bool {
    story_type == "bug"@ || story_type == "chore"@ || story_type == "feature"@
}

/// The violation of the story `name` with the type `story_type`.
pub open spec fn invalid_type_text(name: Seq<char>, story_type: Seq<char>) -> Seq<char> {
    "Story '"@ + name + "': invalid type '"@ + story_type
        + "'. Must be 'bug', 'chore', or 'feature'"@
}

/// The violations of the type of a story, if it has one.
pub open spec fn type_violations(name: Seq<char>, story_type: Option<Seq<char>>) -> Seq<Seq<char>> {
    match story_type {
        Some(t) => if valid_story_type(t) {
            Seq::empty()
        } else {
            seq![invalid_type_text(name, t)]
        },
        None => Seq::empty(),
    }
}

/// The violation of the record `record` that refers to an unknown `what`
/// by `name`; `hint` is the sample of known names.
pub open spec fn unknown_text(
    kind: Seq<char>,
    record: Seq<char>,
    what: Seq<char>,
    name: Seq<char>,
    hint: Seq<char>,
) -> Seq<char> {
    kind + " '"@ + record + "': unknown "@ + what + " '"@ + name + "'. Available: "@ + hint
}

/// The violations of one reference by name: none if the name, trimmed, is
/// known.
pub open spec fn unknown_name(
    kind: Seq<char>,
    record: Seq<char>,
    what: Seq<char>,
    name: Seq<char>,
    known: Set<Seq<char>>,
) -> Seq<Seq<char>> {
    if known.contains(trimmed(name)) {
        Seq::empty()
    } else {
        seq![unknown_text(kind, record, what, name, sample_of(known))]
    }
}

/// The violations of a list of references by name, in the order of the
/// list.
pub open spec fn unknown_names(
    kind: Seq<char>,
    record: Seq<char>,
    what: Seq<char>,
    names: Seq<Seq<char>>,
    known: Set<Seq<char>>,
) -> Seq<Seq<char>>
    decreases names.len(),
{
    if names.len() == 0 {
        Seq::empty()
    } else {
        unknown_names(kind, record, what, names.drop_last(), known) + unknown_name(
            kind,
            record,
            what,
            names.last(),
            known,
        )
    }
}

/// The violations of an optional reference by name.
pub open spec fn unknown_optional(
    kind: Seq<char>,
    record: Seq<char>,
    what: Seq<char>,
    name: Option<Seq<char>>,
    known: Set<Seq<char>>,
) -> Seq<Seq<char>> {
    match name {
        Some(n) => unknown_name(kind, record, what, n, known),
        None => Seq::empty(),
    }
}

/// Whether a reference to a parent leads nowhere: it writes no number, no
/// record of the batch has it as its name, and nothing is registered under
/// it once it is trimmed.
pub open spec fn dangling(
    reference: Seq<char>,
    batch: Set<Seq<char>>,
    registered: Set<Seq<char>>,
) -> bool {
    parsed_i64(reference) is None && !batch.contains(reference) && !registered.contains(
        trimmed(reference),
    )
}

/// The violation of the record `record` whose reference to a `parent`
/// leads nowhere.
pub open spec fn dangling_text(
    kind: Seq<char>,
    record: Seq<char>,
    parent: Seq<char>,
    reference: Seq<char>,
) -> Seq<char> {
    kind + " '"@ + record + "': "@ + parent + " '"@ + reference
        + "' not found in current batch (use a numeric ID to reference a pre-existing "@ + parent
        + ")"@
}

/// The violations of the reference of a record to its parent, if it has
/// one.
pub open spec fn dangling_violations(
    kind: Seq<char>,
    record: Seq<char>,
    parent: Seq<char>,
    reference: Option<Seq<char>>,
    batch: Set<Seq<char>>,
    registered: Set<Seq<char>>,
) -> Seq<Seq<char>> {
    match reference {
        Some(r) => if dangling(r, batch, registered) {
            seq![dangling_text(kind, record, parent, r)]
        } else {
            Seq::empty()
        },
        None => Seq::empty(),
    }
}

/// The violation of the epic `record` whose template file is missing.
pub open spec fn missing_template_text(record: Seq<char>, path: Seq<char>) -> Seq<char> {
    "Epic '"@ + record + "': template file '"@ + path + "' not found"@
}

/// The violations of the template of an epic, if it names one.
pub open spec fn template_violations(
    record: Seq<char>,
    template: Option<Seq<char>>,
    missing: Set<Seq<char>>,
) -> Seq<Seq<char>> {
    match template {
        Some(path) => if missing.contains(path) {
            seq![missing_template_text(record, path)]
        } else {
            Seq::empty()
        },
        None => Seq::empty(),
    }
}

/// The violations of the name of a record of kind `kind`: it must not be
/// empty.
pub open spec fn name_violations(kind: Seq<char>, name: Seq<char>) -> Seq<Seq<char>> {
    if name.len() == 0 {
        seq![required_text(kind)]
    } else {
        Seq::empty()
    }
}

/// The violations of one objective: a missing name, then its state.
pub open spec fn objective_violations(o: InputObjectiveView) -> Seq<Seq<char>> {
    name_violations("Objective"@, o.name) + state_violations("Objective"@, o.name, o.state)
}

/// The violations of one epic: a missing name, then its state, its owners,
/// its teams, its objective and its template. No check is left out because
/// an earlier one failed.
pub open spec fn epic_violations(
    e: InputEpicView,
    resolver: ResolverView,
    batch_objectives: Set<Seq<char>>,
    missing: Set<Seq<char>>,
) -> Seq<Seq<char>> {
    name_violations("Epic"@, e.name) + state_violations("Epic"@, e.name, e.state) + unknown_names(
        "Epic"@,
        e.name,
        "user"@,
        e.owners,
        resolver.members.dom(),
    ) + unknown_names("Epic"@, e.name, "team"@, e.teams, resolver.groups.dom())
        + dangling_violations(
        "Epic"@,
        e.name,
        "objective"@,
        e.objective,
        batch_objectives,
        resolver.objectives.dom(),
    ) + template_violations(e.name, e.template, missing)
}

/// The violations of one story: a missing name, then its type, its owners,
/// its team, its epic and its workflow stage. No check is left out because
/// an earlier one failed.
pub open spec fn story_violations(
    s: InputStoryView,
    resolver: ResolverView,
    batch_epics: Set<Seq<char>>,
) -> Seq<Seq<char>> {
    name_violations("Story"@, s.name) + type_violations(s.name, s.story_type) + unknown_names(
        "Story"@,
        s.name,
        "user"@,
        s.owners,
        resolver.members.dom(),
    ) + unknown_optional("Story"@, s.name, "team"@, s.team, resolver.groups.dom())
        + dangling_violations(
        "Story"@,
        s.name,
        "epic"@,
        s.epic,
        batch_epics,
        resolver.epics.dom(),
    ) + unknown_optional(
        "Story"@,
        s.name,
        "workflow state"@,
        s.workflow_state,
        resolver.stages.dom(),
    )
}

/// The violations of the objectives, in the order of the input.
pub open spec fn objectives_violations(os: Seq<InputObjectiveView>) -> Seq<Seq<char>>
    decreases os.len(),
{
    if os.len() == 0 {
        Seq::empty()
    } else {
        objectives_violations(os.drop_last()) + objective_violations(os.last())
    }
}

/// The violations of the epics, in the order of the input.
pub open spec fn epics_violations(
    es: Seq<InputEpicView>,
    resolver: ResolverView,
    batch_objectives: Set<Seq<char>>,
    missing: Set<Seq<char>>,
) -> Seq<Seq<char>>
    decreases es.len(),
{
    if es.len() == 0 {
        Seq::empty()
    } else {
        epics_violations(es.drop_last(), resolver, batch_objectives, missing) + epic_violations(
            es.last(),
            resolver,
            batch_objectives,
            missing,
        )
    }
}

/// The violations of the stories, in the order of the input.
pub open spec fn stories_violations(
    ss: Seq<InputStoryView>,
    resolver: ResolverView,
    batch_epics: Set<Seq<char>>,
) -> Seq<Seq<char>>
    decreases ss.len(),
{
    if ss.len() == 0 {
        Seq::empty()
    } else {
        stories_violations(ss.drop_last(), resolver, batch_epics) + story_violations(
            ss.last(),
            resolver,
            batch_epics,
        )
    }
}

/// The names of the objectives of a batch.
pub open spec fn objective_names(os: Seq<InputObjectiveView>) -> Set<Seq<char>> {
    Set::new(|name: Seq<char>| exists|i: int| 0 <= i < os.len() && #[trigger] os[i].name == name)
}

/// The names of the epics of a batch.
pub open spec fn epic_names(es: Seq<InputEpicView>) -> Set<Seq<char>> {
    Set::new(|name: Seq<char>| exists|i: int| 0 <= i < es.len() && #[trigger] es[i].name == name)
}

/// All violations of a batch against the tables of `resolver`; `missing`
/// holds the template paths at which no file was found.
pub open spec fn violations(input: InputFileView, resolver: ResolverView, missing: Set<Seq<char>>)
    -> Seq<Seq<char>> {
    objectives_violations(input.objectives) + epics_violations(
        input.epics,
        resolver,
        objective_names(input.objectives),
        missing,
    ) + stories_violations(input.stories, resolver, epic_names(input.epics))
}

/// Appends `message` to `errors`.
fn report(errors: &mut Vec<String>, message: String)
    ensures
        texts(final(errors)@) == texts(old(errors)@).push(message@),
{
    proof {
        lemma_texts_push(errors@, message);
    }
    errors.push(message);
}

/// Whether `state` is a state that an objective or an epic can have.
fn is_valid_state(state: &str) -> (r: bool)
    ensures
        r == valid_state(state@),
{
    same_text(state, "in progress") || same_text(state, "to do") || same_text(state, "done")
}

fn validate_state(kind: &str, state: &str, name: &str, errors: &mut Vec<String>)
    ensures
        texts(final(errors)@) == texts(old(errors)@) + state_violations(
            kind@,
            name@,
            Some(state@),
        ),
{
    if !is_valid_state(state) {
        let mut message = kind.to_owned();
        message.append(" '");
        message.append(name);
        message.append("': invalid state '");
        message.append(state);
        message.append("'. Must be 'in progress', 'to do', or 'done'");
        report(errors, message);
        proof {
            assert(texts(errors@) =~= texts(old(errors)@) + seq![
                invalid_state_text(kind@, name@, state@),
            ]);
        }
    } else {
        proof {
            assert(texts(errors@) =~= texts(old(errors)@) + Seq::<Seq<char>>::empty());
        }
    }
}

/// Reports the state of the objective `name` unless it is one of the three
/// that an objective can have.
pub fn validate_objective_state(state: &str, name: &str, errors: &mut Vec<String>)
    ensures
        texts(final(errors)@) == texts(old(errors)@) + state_violations(
            "Objective"@,
            name@,
            Some(state@),
        ),
{
    validate_state("Objective", state, name, errors)
}

/// Reports the state of the epic `name` unless it is one of the three that
/// an epic can have.
pub fn validate_epic_state(state: &str, name: &str, errors: &mut Vec<String>)
    ensures
        texts(final(errors)@) == texts(old(errors)@) + state_violations(
            "Epic"@,
            name@,
            Some(state@),
        ),
{
    validate_state("Epic", state, name, errors)
}

/// Reports the type of the story `name` unless it is one of the three that
/// a story can have.
pub fn validate_story_type(story_type: &str, name: &str, errors: &mut Vec<String>)
    ensures
        texts(final(errors)@) == texts(old(errors)@) + type_violations(
            name@,
            Some(story_type@),
        ),
{
    if same_text(story_type, "bug") || same_text(story_type, "chore") || same_text(
        story_type,
        "feature",
    ) {
        proof {
            assert(texts(errors@) =~= texts(old(errors)@) + Seq::<Seq<char>>::empty());
        }
    } else {
        let mut message = "Story '".to_owned();
        message.append(name);
        message.append("': invalid type '");
        message.append(story_type);
        message.append("'. Must be 'bug', 'chore', or 'feature'");
        report(errors, message);
        proof {
            assert(texts(errors@) =~= texts(old(errors)@) + seq![
                invalid_type_text(name@, story_type@),
            ]);
        }
    }
}

/// Reports the reference `name` unless `table` holds it once trimmed.
fn check_name<V>(
    kind: &str,
    record: &str,
    what: &str,
    name: &str,
    table: &NameMap<V>,
    hint: &str,
    errors: &mut Vec<String>,
)
    requires
        hint@ == sample_of(table@.dom()),
    ensures
        texts(final(errors)@) == texts(old(errors)@) + unknown_name(
            kind@,
            record@,
            what@,
            name@,
            table@.dom(),
        ),
{
    if table.contains_key(trim(name)) {
        proof {
            assert(texts(errors@) =~= texts(old(errors)@) + Seq::<Seq<char>>::empty());
        }
    } else {
        let mut message = kind.to_owned();
        message.append(" '");
        message.append(record);
        message.append("': unknown ");
        message.append(what);
        message.append(" '");
        message.append(name);
        message.append("'. Available: ");
        message.append(hint);
        report(errors, message);
        proof {
            assert(texts(errors@) =~= texts(old(errors)@) + seq![
                unknown_text(kind@, record@, what@, name@, hint@),
            ]);
        }
    }
}

/// Reports each of the references `names` that `table` does not hold.
fn check_names<V>(
    kind: &str,
    record: &str,
    what: &str,
    names: &Vec<String>,
    table: &NameMap<V>,
    hint: &str,
    errors: &mut Vec<String>,
)
    requires
        hint@ == sample_of(table@.dom()),
    ensures
        texts(final(errors)@) == texts(old(errors)@) + unknown_names(
            kind@,
            record@,
            what@,
            texts(names@),
            table@.dom(),
        ),
{
    let mut i: usize = 0;
    proof {
        assert(texts(names@).take(0).len() == 0);
        assert(texts(errors@) =~= texts(old(errors)@) + Seq::<Seq<char>>::empty());
    }
    while i < names.len()
        invariant
            i <= names.len(),
            hint@ == sample_of(table@.dom()),
            texts(errors@) == texts(old(errors)@) + unknown_names(
                kind@,
                record@,
                what@,
                texts(names@).take(i as int),
                table@.dom(),
            ),
        decreases names.len() - i,
    {
        check_name(kind, record, what, names[i].as_str(), table, hint, errors);
        proof {
            let all = texts(names@);
            assert(all.take(i + 1).drop_last() == all.take(i as int));
            assert(all.take(i + 1).last() == names@[i as int]@);
            assert(texts(errors@) =~= texts(old(errors)@) + unknown_names(
                kind@,
                record@,
                what@,
                all.take(i + 1),
                table@.dom(),
            ));
        }
        i = i + 1;
    }
    proof {
        assert(texts(names@).take(names.len() as int) == texts(names@));
    }
}

/// Reports the reference of a record to its parent if it leads nowhere.
fn check_parent(
    kind: &str,
    record: &str,
    parent: &str,
    reference: &str,
    batch: &StringHashMap<bool>,
    registered: &NameMap<i64>,
    errors: &mut Vec<String>,
)
    ensures
        texts(final(errors)@) == texts(old(errors)@) + dangling_violations(
            kind@,
            record@,
            parent@,
            Some(reference@),
            batch@.dom(),
            registered@.dom(),
        ),
{
    if parse_i64(reference).is_none() && !batch.contains_key(reference)
        && !registered.contains_key(trim(reference)) {
        let mut message = kind.to_owned();
        message.append(" '");
        message.append(record);
        message.append("': ");
        message.append(parent);
        message.append(" '");
        message.append(reference);
        message.append("' not found in current batch (use a numeric ID to reference a pre-existing ");
        message.append(parent);
        message.append(")");
        report(errors, message);
        proof {
            assert(texts(errors@) =~= texts(old(errors)@) + seq![
                dangling_text(kind@, record@, parent@, reference@),
            ]);
        }
    } else {
        proof {
            assert(texts(errors@) =~= texts(old(errors)@) + Seq::<Seq<char>>::empty());
        }
    }
}

/// Whether `list` holds `item`.
fn holds(list: &Vec<String>, item: &str) -> (r: bool)
    ensures
        r == texts(list@).to_set().contains(item@),
{
    let mut i: usize = 0;
    while i < list.len()
        invariant
            i <= list.len(),
            forall|k: int| 0 <= k < i ==> (#[trigger] list@[k])@ != item@,
        decreases list.len() - i,
    {
        if same_text(list[i].as_str(), item) {
            proof {
                assert(texts(list@)[i as int] == item@);
            }
            return true;
        }
        i = i + 1;
    }
    proof {
        if texts(list@).contains(item@) {
            let k = choose|k: int| 0 <= k < texts(list@).len() && texts(list@)[k] == item@;
            assert(list@[k]@ == item@);
        }
    }
    false
}

/// Reports the template of the epic `record` if no file was found at it.
fn check_template(record: &str, path: &str, missing: &Vec<String>, errors: &mut Vec<String>)
    ensures
        texts(final(errors)@) == texts(old(errors)@) + template_violations(
            record@,
            Some(path@),
            texts(missing@).to_set(),
        ),
{
    if holds(missing, path) {
        let mut message = "Epic '".to_owned();
        message.append(record);
        message.append("': template file '");
        message.append(path);
        message.append("' not found");
        report(errors, message);
        proof {
            assert(texts(errors@) =~= texts(old(errors)@) + seq![
                missing_template_text(record@, path@),
            ]);
        }
    } else {
        proof {
            assert(texts(errors@) =~= texts(old(errors)@) + Seq::<Seq<char>>::empty());
        }
    }
}

/// Reports a record of kind `kind` if its name is empty.
fn check_required(kind: &str, name: &str, errors: &mut Vec<String>)
    ensures
        texts(final(errors)@) == texts(old(errors)@) + name_violations(kind@, name@),
{
    if name.is_empty() {
        let mut message = kind.to_owned();
        message.append(": 'name' is required");
        report(errors, message);
        proof {
            assert(texts(errors@) =~= texts(old(errors)@) + seq![required_text(kind@)]);
        }
    } else {
        proof {
            assert(texts(errors@) =~= texts(old(errors)@) + Seq::<Seq<char>>::empty());
        }
    }
}

/// The samples of known names that the messages of one validation show.
struct Hints {
    members: String,
    groups: String,
    stages: String,
}

impl Hints {
    spec fn of(&self, resolver: ResolverView) -> bool {
        &&& self.members@ == sample_of(resolver.members.dom())
        &&& self.groups@ == sample_of(resolver.groups.dom())
        &&& self.stages@ == sample_of(resolver.stages.dom())
    }
}

fn hints_of(resolver: &Resolver) -> (r: Hints)
    ensures
        r.of(resolver@),
{
    Hints {
        members: list_sample(resolver.available_members()),
        groups: list_sample(resolver.available_groups()),
        stages: list_sample(resolver.available_workflow_states()),
    }
}

fn validate_objective(o: &InputObjective, errors: &mut Vec<String>)
    ensures
        texts(final(errors)@) == texts(old(errors)@) + objective_violations(o@),
{
    let ghost start = texts(errors@);
    let name = o.name.as_str();
    check_required("Objective", name, errors);
    match &o.state {
        Some(state) => validate_objective_state(state.as_str(), name, errors),
        None => {
            proof {
                assert(texts(errors@) =~= texts(errors@) + Seq::<Seq<char>>::empty());
            }
        },
    }
    proof {
        lemma_append(
            start,
            name_violations("Objective"@, o@.name),
            state_violations("Objective"@, o@.name, o@.state),
        );
    }
}

/// Appending to what follows a start is appending to all of it.
proof fn lemma_append(start: Seq<Seq<char>>, so_far: Seq<Seq<char>>, more: Seq<Seq<char>>)
    ensures
        (start + so_far) + more == start + (so_far + more),
{
    assert((start + so_far) + more =~= start + (so_far + more));
}

fn validate_epic(
    e: &InputEpic,
    resolver: &Resolver,
    hints: &Hints,
    batch_objectives: &StringHashMap<bool>,
    missing: &Vec<String>,
    errors: &mut Vec<String>,
)
    requires
        hints.of(resolver@),
    ensures
        texts(final(errors)@) == texts(old(errors)@) + epic_violations(
            e@,
            resolver@,
            batch_objectives@.dom(),
            texts(missing@).to_set(),
        ),
{
    let name = e.name.as_str();
    let ghost start = texts(errors@);
    let ghost view = e@;
    let ghost r = resolver@;
    proof {
        lemma_value_texts_dom(resolver.member_map@);
        lemma_value_texts_dom(resolver.group_map@);
    }
    check_required("Epic", name, errors);
    let ghost so_far = name_violations("Epic"@, view.name);
    match &e.state {
        Some(state) => validate_epic_state(state.as_str(), name, errors),
        None => {
            proof {
                assert(texts(errors@) =~= (start + so_far) + Seq::<Seq<char>>::empty());
            }
        },
    }
    proof {
        let more = state_violations("Epic"@, view.name, view.state);
        lemma_append(start, so_far, more);
        so_far = so_far + more;
    }
    assert(texts(errors@) == start + so_far);
    check_names("Epic", name, "user", &e.owners, &resolver.member_map, hints.members.as_str(), errors);
    proof {
        let more = unknown_names("Epic"@, view.name, "user"@, view.owners, r.members.dom());
        lemma_append(start, so_far, more);
        so_far = so_far + more;
    }
    assert(texts(errors@) == start + so_far);
    check_names("Epic", name, "team", &e.teams, &resolver.group_map, hints.groups.as_str(), errors);
    proof {
        let more = unknown_names("Epic"@, view.name, "team"@, view.teams, r.groups.dom());
        lemma_append(start, so_far, more);
        so_far = so_far + more;
    }
    assert(texts(errors@) == start + so_far);
    let ghost parents = dangling_violations(
        "Epic"@,
        view.name,
        "objective"@,
        view.objective,
        batch_objectives@.dom(),
        r.objectives.dom(),
    );
    match &e.objective {
        Some(reference) => check_parent(
            "Epic",
            name,
            "objective",
            reference.as_str(),
            batch_objectives,
            &resolver.objective_map,
            errors,
        ),
        None => {
            proof {
                assert(texts(errors@) =~= (start + so_far) + Seq::<Seq<char>>::empty());
            }
        },
    }
    proof {
        lemma_append(start, so_far, parents);
        so_far = so_far + parents;
    }
    assert(texts(errors@) == start + so_far);
    let ghost templates = template_violations(view.name, view.template, texts(missing@).to_set());
    match &e.template {
        Some(path) => check_template(name, path.as_str(), missing, errors),
        None => {
            proof {
                assert(texts(errors@) =~= (start + so_far) + Seq::<Seq<char>>::empty());
            }
        },
    }
    proof {
        lemma_append(start, so_far, templates);
    }
}

fn validate_story(
    s: &InputStory,
    resolver: &Resolver,
    hints: &Hints,
    batch_epics: &StringHashMap<bool>,
    errors: &mut Vec<String>,
)
    requires
        hints.of(resolver@),
    ensures
        texts(final(errors)@) == texts(old(errors)@) + story_violations(
            s@,
            resolver@,
            batch_epics@.dom(),
        ),
{
    let name = s.name.as_str();
    let ghost start = texts(errors@);
    let ghost view = s@;
    let ghost r = resolver@;
    proof {
        lemma_value_texts_dom(resolver.member_map@);
        lemma_value_texts_dom(resolver.group_map@);
    }
    check_required("Story", name, errors);
    let ghost so_far = name_violations("Story"@, view.name);
    match &s.story_type {
        Some(story_type) => validate_story_type(story_type.as_str(), name, errors),
        None => {
            proof {
                assert(texts(errors@) =~= (start + so_far) + Seq::<Seq<char>>::empty());
            }
        },
    }
    proof {
        let more = type_violations(view.name, view.story_type);
        lemma_append(start, so_far, more);
        so_far = so_far + more;
    }
    assert(texts(errors@) == start + so_far);
    check_names("Story", name, "user", &s.owners, &resolver.member_map, hints.members.as_str(), errors);
    proof {
        let more = unknown_names("Story"@, view.name, "user"@, view.owners, r.members.dom());
        lemma_append(start, so_far, more);
        so_far = so_far + more;
    }
    assert(texts(errors@) == start + so_far);
    let ghost teams = unknown_optional("Story"@, view.name, "team"@, view.team, r.groups.dom());
    match &s.team {
        Some(team) => check_name(
            "Story",
            name,
            "team",
            team.as_str(),
            &resolver.group_map,
            hints.groups.as_str(),
            errors,
        ),
        None => {
            proof {
                assert(texts(errors@) =~= (start + so_far) + Seq::<Seq<char>>::empty());
            }
        },
    }
    proof {
        lemma_append(start, so_far, teams);
        so_far = so_far + teams;
    }
    assert(texts(errors@) == start + so_far);
    let ghost parents = dangling_violations(
        "Story"@,
        view.name,
        "epic"@,
        view.epic,
        batch_epics@.dom(),
        r.epics.dom(),
    );
    match &s.epic {
        Some(reference) => check_parent(
            "Story",
            name,
            "epic",
            reference.as_str(),
            batch_epics,
            &resolver.epic_map,
            errors,
        ),
        None => {
            proof {
                assert(texts(errors@) =~= (start + so_far) + Seq::<Seq<char>>::empty());
            }
        },
    }
    proof {
        lemma_append(start, so_far, parents);
        so_far = so_far + parents;
    }
    assert(texts(errors@) == start + so_far);
    let ghost stages = unknown_optional(
        "Story"@,
        view.name,
        "workflow state"@,
        view.workflow_state,
        r.stages.dom(),
    );
    match &s.workflow_state {
        Some(stage) => check_name(
            "Story",
            name,
            "workflow state",
            stage.as_str(),
            &resolver.workflow_state_map,
            hints.stages.as_str(),
            errors,
        ),
        None => {
            proof {
                assert(texts(errors@) =~= (start + so_far) + Seq::<Seq<char>>::empty());
            }
        },
    }
    proof {
        lemma_append(start, so_far, stages);
    }
}

/// The names of `objectives` as a set.
fn names_of_objectives(objectives: &Vec<InputObjective>) -> (r: StringHashMap<bool>)
    ensures
        r@.dom() == objective_names(objectives@.map_values(|o: InputObjective| o@)),
{
    let mut names: StringHashMap<bool> = StringHashMap::new();
    let ghost views = objectives@.map_values(|o: InputObjective| o@);
    let mut i: usize = 0;
    while i < objectives.len()
        invariant
            i <= objectives.len(),
            views == objectives@.map_values(|o: InputObjective| o@),
            forall|name: Seq<char>|
                names@.contains_key(name) <==> exists|k: int|
                    0 <= k < i && #[trigger] views[k].name == name,
        decreases objectives.len() - i,
    {
        let ghost before = names@;
        names.insert(objectives[i].name.clone(), true);
        proof {
            assert(views[i as int].name == objectives@[i as int].name@);
            assert forall|name: Seq<char>| names@.contains_key(name) <==> exists|k: int|
                0 <= k < i + 1 && #[trigger] views[k].name == name by {
                if before.contains_key(name) {
                    let k = choose|k: int| 0 <= k < i && #[trigger] views[k].name == name;
                    assert(0 <= k < i + 1 && views[k].name == name);
                }
                if exists|k: int| 0 <= k < i + 1 && #[trigger] views[k].name == name {
                    let k = choose|k: int| 0 <= k < i + 1 && #[trigger] views[k].name == name;
                    if k < i {
                        assert(before.contains_key(name));
                    }
                }
            }
        }
        i = i + 1;
    }
    proof {
        assert(names@.dom() =~= objective_names(views));
    }
    names
}

/// The names of `epics` as a set.
fn names_of_epics(epics: &Vec<InputEpic>) -> (r: StringHashMap<bool>)
    ensures
        r@.dom() == epic_names(epics@.map_values(|e: InputEpic| e@)),
{
    let mut names: StringHashMap<bool> = StringHashMap::new();
    let ghost views = epics@.map_values(|e: InputEpic| e@);
    let mut i: usize = 0;
    while i < epics.len()
        invariant
            i <= epics.len(),
            views == epics@.map_values(|e: InputEpic| e@),
            forall|name: Seq<char>|
                names@.contains_key(name) <==> exists|k: int|
                    0 <= k < i && #[trigger] views[k].name == name,
        decreases epics.len() - i,
    {
        let ghost before = names@;
        names.insert(epics[i].name.clone(), true);
        proof {
            assert(views[i as int].name == epics@[i as int].name@);
            assert forall|name: Seq<char>| names@.contains_key(name) <==> exists|k: int|
                0 <= k < i + 1 && #[trigger] views[k].name == name by {
                if before.contains_key(name) {
                    let k = choose|k: int| 0 <= k < i && #[trigger] views[k].name == name;
                    assert(0 <= k < i + 1 && views[k].name == name);
                }
                if exists|k: int| 0 <= k < i + 1 && #[trigger] views[k].name == name {
                    let k = choose|k: int| 0 <= k < i + 1 && #[trigger] views[k].name == name;
                    if k < i {
                        assert(before.contains_key(name));
                    }
                }
            }
        }
        i = i + 1;
    }
    proof {
        assert(names@.dom() =~= epic_names(views));
    }
    names
}

/// The outcome of a validation.
#[derive(Debug)]
pub struct DryRunReport {
    /// Whether the batch has no violation.
    pub valid: bool,
    /// The violations, in order.
    pub errors: Vec<String>,
}

/// Validates `input` against the tables of `resolver` without creating
/// anything. `missing_templates` holds the template paths of the batch at
/// which the caller found no file.
pub fn dry_run(input: &InputFile, resolver: &Resolver, missing_templates: &Vec<String>) -> (r:
    DryRunReport)
    ensures
        texts(r.errors@) == violations(input@, resolver@, texts(missing_templates@).to_set()),
        r.valid == (r.errors@.len() == 0),
{
    let mut errors: Vec<String> = Vec::new();
    let hints = hints_of(resolver);
    let ghost view = input@;
    let ghost missing = texts(missing_templates@).to_set();
    proof {
        assert(texts(errors@) =~= Seq::<Seq<char>>::empty());
        assert(view.objectives.take(0).len() == 0);
    }
    let mut i: usize = 0;
    while i < input.objectives.len()
        invariant
            i <= input.objectives.len(),
            view == input@,
            texts(errors@) == objectives_violations(view.objectives.take(i as int)),
        decreases input.objectives.len() - i,
    {
        validate_objective(&input.objectives[i], &mut errors);
        proof {
            let all = view.objectives;
            assert(all.take(i + 1).drop_last() == all.take(i as int));
            assert(all.take(i + 1).last() == input.objectives@[i as int]@);
        }
        i = i + 1;
    }
    proof {
        assert(view.objectives.take(input.objectives.len() as int) == view.objectives);
        assert(view.epics.take(0).len() == 0);
    }
    let batch_objectives = names_of_objectives(&input.objectives);
    let ghost first = texts(errors@);
    let mut j: usize = 0;
    proof {
        assert(texts(errors@) =~= first + Seq::<Seq<char>>::empty());
    }
    while j < input.epics.len()
        invariant
            j <= input.epics.len(),
            view == input@,
            hints.of(resolver@),
            batch_objectives@.dom() == objective_names(view.objectives),
            missing == texts(missing_templates@).to_set(),
            texts(errors@) == first + epics_violations(
                view.epics.take(j as int),
                resolver@,
                objective_names(view.objectives),
                missing,
            ),
        decreases input.epics.len() - j,
    {
        validate_epic(
            &input.epics[j],
            resolver,
            &hints,
            &batch_objectives,
            missing_templates,
            &mut errors,
        );
        proof {
            let all = view.epics;
            assert(all.take(j + 1).drop_last() == all.take(j as int));
            assert(all.take(j + 1).last() == input.epics@[j as int]@);
            assert(texts(errors@) =~= first + epics_violations(
                all.take(j + 1),
                resolver@,
                objective_names(view.objectives),
                missing,
            ));
        }
        j = j + 1;
    }
    proof {
        assert(view.epics.take(input.epics.len() as int) == view.epics);
        assert(view.stories.take(0).len() == 0);
    }
    let batch_epics = names_of_epics(&input.epics);
    let ghost second = texts(errors@);
    let mut k: usize = 0;
    proof {
        assert(texts(errors@) =~= second + Seq::<Seq<char>>::empty());
    }
    while k < input.stories.len()
        invariant
            k <= input.stories.len(),
            view == input@,
            hints.of(resolver@),
            batch_epics@.dom() == epic_names(view.epics),
            texts(errors@) == second + stories_violations(
                view.stories.take(k as int),
                resolver@,
                epic_names(view.epics),
            ),
        decreases input.stories.len() - k,
    {
        validate_story(&input.stories[k], resolver, &hints, &batch_epics, &mut errors);
        proof {
            let all = view.stories;
            assert(all.take(k + 1).drop_last() == all.take(k as int));
            assert(all.take(k + 1).last() == input.stories@[k as int]@);
            assert(texts(errors@) =~= second + stories_violations(
                all.take(k + 1),
                resolver@,
                epic_names(view.epics),
            ));
        }
        k = k + 1;
    }
    proof {
        assert(view.stories.take(input.stories.len() as int) == view.stories);
    }
    DryRunReport { valid: errors.len() == 0, errors }
}

/// Validating the same batch against the same tables and the same missing
/// templates gives the same violations, character for character, however
/// often it is done.
pub proof fn lemma_validation_repeats(
    input: InputFileView,
    resolver: ResolverView,
    missing: Set<Seq<char>>,
    first: Seq<Seq<char>>,
    second: Seq<Seq<char>>,
)
    requires
        first == violations(input, resolver, missing),
        second == violations(input, resolver, missing),
    ensures
        first == second,
{
}

} // verus!
