//! Resolution of names to identifiers.
//!
//! A `Resolver` is built once from the people, teams and workflows of the
//! workspace. Its tables of objectives and epics start empty and grow as the
//! run creates them, so that a later record can refer to an earlier one by
//! name.

use crate::api::models::{
    group_views, member_views, workflow_views, Group, GroupView, Member, MemberView, Workflow,
    WorkflowStateView, WorkflowView,
};
use crate::error::{id_result, text_result, texts_result, BypassError, ErrorView};
use crate::name_map::{slices, NameMap};
use crate::text::{lemma_texts_push, parse_i64, parsed_i64, same_text, texts, trim, trimmed};
use vstd::prelude::*;

verus! {

/// `table` with the names of the person `x`, unless `x` is disabled.
pub open spec fn with_member(table: Map<Seq<char>, Seq<char>>, x: MemberView) -> Map<
    Seq<char>,
    Seq<char>,
> {
    if x.disabled {
        table
    } else {
        let named = table.insert(x.name, x.id).insert(x.mention_name, x.id);
        match x.email_address {
            Some(email) => named.insert(email, x.id),
            None => named,
        }
    }
}

/// From display name, mention handle and e-mail address to the identifier
/// of each person that is not disabled; of two people under one name the
/// later one is kept.
pub open spec fn member_table(people: Seq<MemberView>) -> Map<Seq<char>, Seq<char>>
    decreases people.len(),
{
    if people.len() == 0 {
        Map::empty()
    } else {
        with_member(member_table(people.drop_last()), people.last())
    }
}

/// `table` with the names of the team `x`, unless `x` is archived.
pub open spec fn with_group(table: Map<Seq<char>, Seq<char>>, x: GroupView) -> Map<
    Seq<char>,
    Seq<char>,
> {
    if x.archived {
        table
    } else {
        table.insert(x.name, x.id).insert(x.mention_name, x.id)
    }
}

/// From display name and mention handle to the identifier of each team that
/// is not archived; of two teams under one name the later one is kept.
pub open spec fn group_table(teams: Seq<GroupView>) -> Map<Seq<char>, Seq<char>>
    decreases teams.len(),
{
    if teams.len() == 0 {
        Map::empty()
    } else {
        with_group(group_table(teams.drop_last()), teams.last())
    }
}

/// The stages of all workflows, in the order of the workflows and, within
/// one, of its stages.
pub open spec fn all_stages(workflows: Seq<WorkflowView>) -> Seq<WorkflowStateView>
    decreases workflows.len(),
{
    if workflows.len() == 0 {
        Seq::empty()
    } else {
        all_stages(workflows.drop_last()) + workflows.last().states
    }
}

/// From the name of a stage to its identifier; of two stages with one name
/// the later one is kept.
pub open spec fn stage_table(stages: Seq<WorkflowStateView>) -> Map<Seq<char>, i64>
    decreases stages.len(),
{
    if stages.len() == 0 {
        Map::empty()
    } else {
        stage_table(stages.drop_last()).insert(stages.last().name, stages.last().id)
    }
}

/// Whether a stage is one in which work has not started.
pub open spec fn is_unstarted(stage: WorkflowStateView) -> bool {
    stage.state_type == "unstarted"@
}

/// The identifier of the first stage of `stages` that is unstarted.
pub open spec fn first_unstarted(stages: Seq<WorkflowStateView>) -> Option<i64>
    decreases stages.len(),
{
    if stages.len() == 0 {
        None
    } else {
        match first_unstarted(stages.drop_last()) {
            Some(id) => Some(id),
            None => if is_unstarted(stages.last()) {
                Some(stages.last().id)
            } else {
                None
            },
        }
    }
}

/// The stage that a story starts in when it names none: the first unstarted
/// stage of all workflows; without one, the default that the first workflow
/// declares; without workflows, none.
pub open spec fn default_stage(workflows: Seq<WorkflowView>) -> Option<i64> {
    match first_unstarted(all_stages(workflows)) {
        Some(id) => Some(id),
        None => if workflows.len() > 0 {
            Some(workflows[0].default_state_id)
        } else {
            None
        },
    }
}

/// The characters of each value of `table`.
pub open spec fn value_texts(table: Map<Seq<char>, String>) -> Map<Seq<char>, Seq<char>> {
    table.map_values(|id: String| id@)
}

/// The error for a `name` that names no `kind`.
pub open spec fn not_found(kind: Seq<char>, name: Seq<char>) -> ErrorView {
    ErrorView::NameNotFound { resource_type: kind, name }
}

/// What `name`, trimmed, stands for in `table`; the error quotes `name` as
/// it was given.
pub open spec fn lookup<V>(table: Map<Seq<char>, V>, kind: Seq<char>, name: Seq<char>) -> Result<
    V,
    ErrorView,
> {
    if table.contains_key(trimmed(name)) {
        Ok(table[trimmed(name)])
    } else {
        Err(not_found(kind, name))
    }
}

/// What each of `names` stands for in `table`, or the error of the first
/// that stands for nothing.
pub open spec fn lookup_all<V>(
    table: Map<Seq<char>, V>,
    kind: Seq<char>,
    names: Seq<Seq<char>>,
) -> Result<Seq<V>, ErrorView>
    decreases names.len(),
{
    if names.len() == 0 {
        Ok(Seq::empty())
    } else {
        match lookup_all(table, kind, names.drop_last()) {
            Err(e) => Err(e),
            Ok(found) => match lookup(table, kind, names.last()) {
                Ok(v) => Ok(found.push(v)),
                Err(e) => Err(e),
            },
        }
    }
}

/// What `name` stands for as a reference to a created record: the number it
/// writes once trimmed, if it writes one, and else its entry in `table`.
pub open spec fn lookup_reference(
    table: Map<Seq<char>, i64>,
    kind: Seq<char>,
    name: Seq<char>,
) -> Result<i64, ErrorView> {
    match parsed_i64(trimmed(name)) {
        Some(id) => Ok(id),
        None => lookup(table, kind, name),
    }
}

/// The tables of a `Resolver`.
pub struct ResolverView {
    pub members: Map<Seq<char>, Seq<char>>,
    pub groups: Map<Seq<char>, Seq<char>>,
    pub stages: Map<Seq<char>, i64>,
    pub default_stage: Option<i64>,
    pub objectives: Map<Seq<char>, i64>,
    pub epics: Map<Seq<char>, i64>,
}

impl ResolverView {
    /// The tables built from a snapshot of the workspace, with no objective
    /// and no epic registered.
    pub open spec fn of_workspace(
        people: Seq<MemberView>,
        teams: Seq<GroupView>,
        workflows: Seq<WorkflowView>,
    ) -> ResolverView {
        ResolverView {
            members: member_table(people),
            groups: group_table(teams),
            stages: stage_table(all_stages(workflows)),
            default_stage: default_stage(workflows),
            objectives: Map::empty(),
            epics: Map::empty(),
        }
    }

    pub open spec fn resolve_member(self, name: Seq<char>) -> Result<Seq<char>, ErrorView> {
        lookup(self.members, "user"@, name)
    }

    pub open spec fn resolve_members(self, names: Seq<Seq<char>>) -> Result<
        Seq<Seq<char>>,
        ErrorView,
    > {
        lookup_all(self.members, "user"@, names)
    }

    pub open spec fn resolve_group(self, name: Seq<char>) -> Result<Seq<char>, ErrorView> {
        lookup(self.groups, "team"@, name)
    }

    pub open spec fn resolve_groups(self, names: Seq<Seq<char>>) -> Result<
        Seq<Seq<char>>,
        ErrorView,
    > {
        lookup_all(self.groups, "team"@, names)
    }

    pub open spec fn resolve_workflow_state(self, name: Seq<char>) -> Result<i64, ErrorView> {
        lookup(self.stages, "workflow state"@, name)
    }

    pub open spec fn resolve_objective(self, name: Seq<char>) -> Result<i64, ErrorView> {
        lookup_reference(self.objectives, "objective"@, name)
    }

    pub open spec fn resolve_epic(self, name: Seq<char>) -> Result<i64, ErrorView> {
        lookup_reference(self.epics, "epic"@, name)
    }

    pub open spec fn register_objective(self, name: Seq<char>, id: i64) -> ResolverView {
        ResolverView { objectives: self.objectives.insert(name, id), ..self }
    }

    pub open spec fn register_epic(self, name: Seq<char>, id: i64) -> ResolverView {
        ResolverView { epics: self.epics.insert(name, id), ..self }
    }
}

/// The lookup tables of one run.
pub struct Resolver {
    /// From display name, mention handle and e-mail address to a person.
    pub member_map: NameMap<String>,
    /// From display name and mention handle to a team.
    pub group_map: NameMap<String>,
    /// From the name of a workflow stage to the stage.
    pub workflow_state_map: NameMap<i64>,
    /// The stage of a story that names none.
    pub default_workflow_state_id: Option<i64>,
    /// The objectives created so far in this run, by name.
    pub objective_map: NameMap<i64>,
    /// The epics created so far in this run, by name.
    pub epic_map: NameMap<i64>,
}

impl View for Resolver {
    type V = ResolverView;

    open spec fn view(&self) -> ResolverView {
        ResolverView {
            members: value_texts(self.member_map@),
            groups: value_texts(self.group_map@),
            stages: self.workflow_state_map@,
            default_stage: self.default_workflow_state_id,
            objectives: self.objective_map@,
            epics: self.epic_map@,
        }
    }
}

/// Looks `name`, trimmed, up in a table of identifiers.
fn find_text(table: &NameMap<String>, kind: &str, name: &str) -> (r: Result<String, BypassError>)
    ensures
        text_result(r) == lookup(value_texts(table@), kind@, name@),
{
    match table.get(trim(name)) {
        Some(id) => Ok(id.clone()),
        None => Err(BypassError::not_found(kind, name)),
    }
}

/// Looks each of `names` up in a table of identifiers, up to the first
/// that is not there.
fn find_texts(table: &NameMap<String>, kind: &str, names: &[String]) -> (r: Result<
    Vec<String>,
    BypassError,
>)
    ensures
        texts_result(r) == lookup_all(value_texts(table@), kind@, texts(names@)),
{
    let mut found: Vec<String> = Vec::new();
    let mut i: usize = 0;
    proof {
        assert(texts(names@).take(0).len() == 0);
        assert(texts(found@) =~= Seq::<Seq<char>>::empty());
    }
    while i < names.len()
        invariant
            i <= names.len(),
            lookup_all(value_texts(table@), kind@, texts(names@).take(i as int)) == Ok::<
                Seq<Seq<char>>,
                ErrorView,
            >(texts(found@)),
        decreases names.len() - i,
    {
        proof {
            let all = texts(names@);
            assert(all.take(i + 1).drop_last() == all.take(i as int));
            assert(all.take(i + 1).last() == names@[i as int]@);
        }
        match find_text(table, kind, names[i].as_str()) {
            Ok(id) => {
                proof {
                    lemma_texts_push(found@, id);
                }
                found.push(id);
            },
            Err(e) => {
                proof {
                    lemma_lookup_all_fails(
                        value_texts(table@),
                        kind@,
                        texts(names@),
                        i + 1,
                    );
                }
                return Err(e);
            },
        }
        i = i + 1;
    }
    proof {
        assert(texts(names@).take(names.len() as int) == texts(names@));
    }
    Ok(found)
}

/// Once a prefix of `names` fails, all of `names` fails with the same
/// error.
pub proof fn lemma_lookup_all_fails<V>(
    table: Map<Seq<char>, V>,
    kind: Seq<char>,
    names: Seq<Seq<char>>,
    n: int,
)
    requires
        0 <= n <= names.len(),
        lookup_all(table, kind, names.take(n)) is Err,
    ensures
        lookup_all(table, kind, names) == lookup_all(table, kind, names.take(n)),
    decreases names.len(),
{
    if n < names.len() {
        assert(names.drop_last().take(n) == names.take(n));
        lemma_lookup_all_fails(table, kind, names.drop_last(), n);
    } else {
        assert(names.take(n) == names);
    }
}

/// Looks `name` up as a reference to a created record.
fn find_reference(table: &NameMap<i64>, kind: &str, name: &str) -> (r: Result<i64, BypassError>)
    ensures
        id_result(r) == lookup_reference(table@, kind@, name@),
{
    let key = trim(name);
    match parse_i64(key) {
        Some(id) => Ok(id),
        None => match table.get(key) {
            Some(id) => Ok(*id),
            None => Err(BypassError::not_found(kind, name)),
        },
    }
}

/// Mapping the values to characters goes through `insert`.
pub proof fn lemma_value_texts_insert(table: Map<Seq<char>, String>, key: Seq<char>, id: String)
    ensures
        value_texts(table.insert(key, id)) == value_texts(table).insert(key, id@),
{
    assert(value_texts(table.insert(key, id)) =~= value_texts(table).insert(key, id@));
}

/// Mapping the values to characters keeps the keys.
pub proof fn lemma_value_texts_dom(table: Map<Seq<char>, String>)
    ensures
        value_texts(table).dom() == table.dom(),
{
    assert(value_texts(table).dom() =~= table.dom());
}

/// The table of the names of `members`.
fn build_member_map(members: &Vec<Member>) -> (r: NameMap<String>)
    ensures
        value_texts(r@) == member_table(member_views(members@)),
{
    let mut table: NameMap<String> = NameMap::new();
    let mut i: usize = 0;
    proof {
        assert(member_views(members@).take(0).len() == 0);
        assert(value_texts(table@) =~= Map::<Seq<char>, Seq<char>>::empty());
    }
    while i < members.len()
        invariant
            i <= members.len(),
            value_texts(table@) == member_table(member_views(members@).take(i as int)),
        decreases members.len() - i,
    {
        let m = &members[i];
        proof {
            let all = member_views(members@);
            assert(all.take(i + 1).drop_last() == all.take(i as int));
            assert(all.take(i + 1).last() == m@);
        }
        if !m.disabled {
            proof {
                lemma_value_texts_insert(table@, m.profile.name@, m.id);
            }
            table.insert(m.profile.name.clone(), m.id.clone());
            proof {
                lemma_value_texts_insert(table@, m.profile.mention_name@, m.id);
            }
            table.insert(m.profile.mention_name.clone(), m.id.clone());
            match &m.profile.email_address {
                Some(email) => {
                    proof {
                        lemma_value_texts_insert(table@, email@, m.id);
                    }
                    table.insert(email.clone(), m.id.clone());
                },
                None => {},
            }
        }
        i = i + 1;
    }
    proof {
        assert(member_views(members@).take(members.len() as int) == member_views(members@));
    }
    table
}

/// The table of the names of `groups`.
fn build_group_map(groups: &Vec<Group>) -> (r: NameMap<String>)
    ensures
        value_texts(r@) == group_table(group_views(groups@)),
{
    let mut table: NameMap<String> = NameMap::new();
    let mut i: usize = 0;
    proof {
        assert(group_views(groups@).take(0).len() == 0);
        assert(value_texts(table@) =~= Map::<Seq<char>, Seq<char>>::empty());
    }
    while i < groups.len()
        invariant
            i <= groups.len(),
            value_texts(table@) == group_table(group_views(groups@).take(i as int)),
        decreases groups.len() - i,
    {
        let g = &groups[i];
        proof {
            let all = group_views(groups@);
            assert(all.take(i + 1).drop_last() == all.take(i as int));
            assert(all.take(i + 1).last() == g@);
        }
        if !g.archived {
            proof {
                lemma_value_texts_insert(table@, g.name@, g.id);
            }
            table.insert(g.name.clone(), g.id.clone());
            proof {
                lemma_value_texts_insert(table@, g.mention_name@, g.id);
            }
            table.insert(g.mention_name.clone(), g.id.clone());
        }
        i = i + 1;
    }
    proof {
        assert(group_views(groups@).take(groups.len() as int) == group_views(groups@));
    }
    table
}

/// The table of the stages of `workflows`, and their first unstarted stage.
fn build_stage_map(workflows: &Vec<Workflow>) -> (r: (NameMap<i64>, Option<i64>))
    ensures
        r.0@ == stage_table(all_stages(workflow_views(workflows@))),
        r.1 == first_unstarted(all_stages(workflow_views(workflows@))),
{
    let mut table: NameMap<i64> = NameMap::new();
    let mut first: Option<i64> = None;
    let ghost all = workflow_views(workflows@);
    let mut i: usize = 0;
    proof {
        assert(all.take(0).len() == 0);
    }
    while i < workflows.len()
        invariant
            i <= workflows.len(),
            all == workflow_views(workflows@),
            table@ == stage_table(all_stages(all.take(i as int))),
            first == first_unstarted(all_stages(all.take(i as int))),
        decreases workflows.len() - i,
    {
        let wf = &workflows[i];
        let ghost done = all_stages(all.take(i as int));
        let ghost stages = all[i as int].states;
        proof {
            assert(all.take(i + 1).drop_last() == all.take(i as int));
            assert(all.take(i + 1).last() == wf@);
            assert(done + stages.take(0) == done);
        }
        let mut j: usize = 0;
        while j < wf.states.len()
            invariant
                j <= wf.states.len(),
                stages == wf@.states,
                table@ == stage_table(done + stages.take(j as int)),
                first == first_unstarted(done + stages.take(j as int)),
            decreases wf.states.len() - j,
        {
            let state = &wf.states[j];
            proof {
                assert((done + stages.take(j + 1)).drop_last() == done + stages.take(j as int));
                assert((done + stages.take(j + 1)).last() == state@);
            }
            table.insert(state.name.clone(), state.id);
            if first.is_none() && same_text(state.state_type.as_str(), "unstarted") {
                first = Some(state.id);
            }
            j = j + 1;
        }
        proof {
            assert(stages.take(wf.states.len() as int) == stages);
        }
        i = i + 1;
    }
    proof {
        assert(all.take(workflows.len() as int) == all);
    }
    (table, first)
}

impl Resolver {
    /// The resolver of a workspace that holds `members`, `groups` and
    /// `workflows`, with no objective and no epic registered.
    pub fn from_workspace(
        members: &Vec<Member>,
        groups: &Vec<Group>,
        workflows: &Vec<Workflow>,
    ) -> (r: Resolver)
        ensures
            r@ == ResolverView::of_workspace(
                member_views(members@),
                group_views(groups@),
                workflow_views(workflows@),
            ),
    {
        let member_map = build_member_map(members);
        let group_map = build_group_map(groups);
        let (workflow_state_map, first) = build_stage_map(workflows);
        let default_workflow_state_id = match first {
            Some(id) => Some(id),
            None => if workflows.len() > 0 {
                Some(workflows[0].default_state_id)
            } else {
                None
            },
        };
        Resolver {
            member_map,
            group_map,
            workflow_state_map,
            default_workflow_state_id,
            objective_map: NameMap::new(),
            epic_map: NameMap::new(),
        }
    }

    /// The resolver built from the outcome of the three reads of the
    /// workspace. There is one only if all three succeeded; otherwise the
    /// error of the first failed read, in the order of the parameters, comes
    /// back and nothing is built.
    pub fn new(
        members: Result<Vec<Member>, BypassError>,
        groups: Result<Vec<Group>, BypassError>,
        workflows: Result<Vec<Workflow>, BypassError>,
    ) -> (r: Result<Resolver, BypassError>)
        ensures
            r is Ok <==> members is Ok && groups is Ok && workflows is Ok,
            r matches Ok(resolver) ==> resolver@ == ResolverView::of_workspace(
                member_views(members->Ok_0@),
                group_views(groups->Ok_0@),
                workflow_views(workflows->Ok_0@),
            ),
            r matches Err(e) ==> e == (if members is Err {
                members->Err_0
            } else if groups is Err {
                groups->Err_0
            } else {
                workflows->Err_0
            }),
    {
        let members = match members {
            Ok(v) => v,
            Err(e) => return Err(e),
        };
        let groups = match groups {
            Ok(v) => v,
            Err(e) => return Err(e),
        };
        let workflows = match workflows {
            Ok(v) => v,
            Err(e) => return Err(e),
        };
        Ok(Resolver::from_workspace(&members, &groups, &workflows))
    }

    /// The identifier of the person called `name`.
    pub fn resolve_member(&self, name: &str) -> (r: Result<String, BypassError>)
        ensures
            text_result(r) == self@.resolve_member(name@),
    {
        find_text(&self.member_map, "user", name)
    }

    /// The identifiers of the people called `names`, or the error of the
    /// first that is not known.
    pub fn resolve_members(&self, names: &[String]) -> (r: Result<Vec<String>, BypassError>)
        ensures
            texts_result(r) == self@.resolve_members(texts(names@)),
    {
        find_texts(&self.member_map, "user", names)
    }

    /// The identifier of the team called `name`.
    pub fn resolve_group(&self, name: &str) -> (r: Result<String, BypassError>)
        ensures
            text_result(r) == self@.resolve_group(name@),
    {
        find_text(&self.group_map, "team", name)
    }

    /// The identifiers of the teams called `names`, or the error of the
    /// first that is not known.
    pub fn resolve_groups(&self, names: &[String]) -> (r: Result<Vec<String>, BypassError>)
        ensures
            texts_result(r) == self@.resolve_groups(texts(names@)),
    {
        find_texts(&self.group_map, "team", names)
    }

    /// The identifier of the workflow stage called `name`.
    pub fn resolve_workflow_state(&self, name: &str) -> (r: Result<i64, BypassError>)
        ensures
            id_result(r) == self@.resolve_workflow_state(name@),
    {
        match self.workflow_state_map.get(trim(name)) {
            Some(id) => Ok(*id),
            None => Err(BypassError::not_found("workflow state", name)),
        }
    }

    /// The identifier of the objective that `name` refers to: the number
    /// that `name` writes, or the objective registered under `name`.
    pub fn resolve_objective(&self, name: &str) -> (r: Result<i64, BypassError>)
        ensures
            id_result(r) == self@.resolve_objective(name@),
    {
        find_reference(&self.objective_map, "objective", name)
    }

    /// The identifier of the epic that `name` refers to: the number that
    /// `name` writes, or the epic registered under `name`.
    pub fn resolve_epic(&self, name: &str) -> (r: Result<i64, BypassError>)
        ensures
            id_result(r) == self@.resolve_epic(name@),
    {
        find_reference(&self.epic_map, "epic", name)
    }

    /// Records that the objective `name` was created as `id`.
    pub fn register_objective(&mut self, name: String, id: i64)
        ensures
            final(self)@ == old(self)@.register_objective(name@, id),
    {
        self.objective_map.insert(name, id);
    }

    /// Records that the epic `name` was created as `id`.
    pub fn register_epic(&mut self, name: String, id: i64)
        ensures
            final(self)@ == old(self)@.register_epic(name@, id),
    {
        self.epic_map.insert(name, id);
    }

    /// The names by which a person can be referred to, each once.
    pub fn available_members(&self) -> (r: Vec<&str>)
        ensures
            slices(r@).no_duplicates(),
            slices(r@).to_set() == self@.members.dom(),
    {
        self.member_map.keys()
    }

    /// The names by which a team can be referred to, each once.
    pub fn available_groups(&self) -> (r: Vec<&str>)
        ensures
            slices(r@).no_duplicates(),
            slices(r@).to_set() == self@.groups.dom(),
    {
        self.group_map.keys()
    }

    /// The names of the workflow stages, each once.
    pub fn available_workflow_states(&self) -> (r: Vec<&str>)
        ensures
            slices(r@).no_duplicates(),
            slices(r@).to_set() == self@.stages.dom(),
    {
        self.workflow_state_map.keys()
    }
}

/// An objective registered under a name without surrounding whitespace
/// resolves by that name from then on: to the identifier it was registered
/// with, unless the name writes a number, which then is the answer.
pub proof fn lemma_registered_objective_resolves(r: ResolverView, name: Seq<char>, id: i64)
    requires
        trimmed(name) == name,
    ensures
        r.register_objective(name, id).resolve_objective(name) == Ok::<i64, ErrorView>(
            match parsed_i64(name) {
                Some(number) => number,
                None => id,
            },
        ),
{
}

/// A name that writes no number and that no objective was registered under
/// does not resolve.
pub proof fn lemma_unregistered_objective_fails(r: ResolverView, name: Seq<char>)
    requires
        parsed_i64(trimmed(name)) is None,
        !r.objectives.contains_key(trimmed(name)),
    ensures
        r.resolve_objective(name) == Err::<i64, ErrorView>(not_found("objective"@, name)),
{
}

/// Registering an objective changes what its own name resolves to and
/// nothing else.
pub proof fn lemma_register_objective_frame(
    r: ResolverView,
    name: Seq<char>,
    id: i64,
    other: Seq<char>,
)
    ensures
        trimmed(other) != name ==> r.register_objective(name, id).resolve_objective(other)
            == r.resolve_objective(other),
        r.register_objective(name, id).resolve_epic(other) == r.resolve_epic(other),
        r.register_objective(name, id).resolve_member(other) == r.resolve_member(other),
        r.register_objective(name, id).resolve_group(other) == r.resolve_group(other),
        r.register_objective(name, id).resolve_workflow_state(other) == r.resolve_workflow_state(
            other,
        ),
        r.register_objective(name, id).default_stage == r.default_stage,
{
}

/// An epic registered under a name without surrounding whitespace resolves
/// by that name from then on: to the identifier it was registered with,
/// unless the name writes a number, which then is the answer.
pub proof fn lemma_registered_epic_resolves(r: ResolverView, name: Seq<char>, id: i64)
    requires
        trimmed(name) == name,
    ensures
        r.register_epic(name, id).resolve_epic(name) == Ok::<i64, ErrorView>(
            match parsed_i64(name) {
                Some(number) => number,
                None => id,
            },
        ),
{
}

/// A name that writes no number and that no epic was registered under does
/// not resolve.
pub proof fn lemma_unregistered_epic_fails(r: ResolverView, name: Seq<char>)
    requires
        parsed_i64(trimmed(name)) is None,
        !r.epics.contains_key(trimmed(name)),
    ensures
        r.resolve_epic(name) == Err::<i64, ErrorView>(not_found("epic"@, name)),
{
}

/// Registering an epic changes what its own name resolves to and nothing
/// else.
pub proof fn lemma_register_epic_frame(r: ResolverView, name: Seq<char>, id: i64, other: Seq<char>)
    ensures
        trimmed(other) != name ==> r.register_epic(name, id).resolve_epic(other) == r.resolve_epic(
            other,
        ),
        r.register_epic(name, id).resolve_objective(other) == r.resolve_objective(other),
        r.register_epic(name, id).resolve_member(other) == r.resolve_member(other),
        r.register_epic(name, id).resolve_group(other) == r.resolve_group(other),
        r.register_epic(name, id).resolve_workflow_state(other) == r.resolve_workflow_state(other),
        r.register_epic(name, id).default_stage == r.default_stage,
{
}

/// `first_unstarted` gives the earliest unstarted stage, and nothing only if
/// no stage is unstarted.
pub proof fn lemma_first_unstarted(stages: Seq<WorkflowStateView>)
    ensures
        match first_unstarted(stages) {
            Some(id) => exists|i: int|
                0 <= i < stages.len() && is_unstarted(#[trigger] stages[i]) && stages[i].id == id
                    && forall|j: int| 0 <= j < i ==> !is_unstarted(#[trigger] stages[j]),
            None => forall|i: int| 0 <= i < stages.len() ==> !is_unstarted(#[trigger] stages[i]),
        },
    decreases stages.len(),
{
    if stages.len() > 0 {
        let before = stages.drop_last();
        lemma_first_unstarted(before);
        match first_unstarted(before) {
            Some(id) => {
                let i = choose|i: int|
                    0 <= i < before.len() && is_unstarted(#[trigger] before[i]) && before[i].id
                        == id && forall|j: int| 0 <= j < i ==> !is_unstarted(#[trigger] before[j]);
                assert(stages[i] == before[i]);
                assert forall|j: int| 0 <= j < i implies !is_unstarted(#[trigger] stages[j]) by {
                    assert(stages[j] == before[j]);
                }
            },
            None => {
                assert forall|j: int| 0 <= j < stages.len() - 1 implies !is_unstarted(
                    #[trigger] stages[j],
                ) by {
                    assert(stages[j] == before[j]);
                }
                if is_unstarted(stages.last()) {
                    assert(stages[stages.len() - 1] == stages.last());
                }
            },
        }
    }
}

/// Each stage of `all_stages` is a stage of one of the workflows.
pub proof fn lemma_all_stages_origin(workflows: Seq<WorkflowView>, i: int)
    requires
        0 <= i < all_stages(workflows).len(),
    ensures
        exists|w: int, s: int|
            0 <= w < workflows.len() && 0 <= s < workflows[w].states.len() && all_stages(
                workflows,
            )[i] == #[trigger] workflows[w].states[s],
    decreases workflows.len(),
{
    let before = workflows.drop_last();
    if i < all_stages(before).len() {
        lemma_all_stages_origin(before, i);
        let (w, s) = choose|w: int, s: int|
            0 <= w < before.len() && 0 <= s < before[w].states.len() && all_stages(before)[i]
                == #[trigger] before[w].states[s];
        assert(workflows[w].states[s] == all_stages(workflows)[i]);
    } else {
        let w = workflows.len() - 1;
        let s = i - all_stages(before).len();
        assert(workflows[w].states[s] == all_stages(workflows)[i]);
    }
}

/// Where no workflow holds an unstarted stage, the default stage is the one
/// that the first workflow declares.
pub proof fn lemma_default_without_unstarted(workflows: Seq<WorkflowView>)
    requires
        workflows.len() > 0,
        forall|w: int, s: int|
            0 <= w < workflows.len() && 0 <= s < workflows[w].states.len() ==> !is_unstarted(
                #[trigger] workflows[w].states[s],
            ),
    ensures
        default_stage(workflows) == Some(workflows[0].default_state_id),
{
    let stages = all_stages(workflows);
    lemma_first_unstarted(stages);
    if first_unstarted(stages) is Some {
        let id = first_unstarted(stages)->Some_0;
        let i = choose|i: int|
            0 <= i < stages.len() && is_unstarted(#[trigger] stages[i]) && stages[i].id == id;
        lemma_all_stages_origin(workflows, i);
    }
}

/// Where some workflow holds an unstarted stage, the default stage is an
/// unstarted stage of the workflows.
pub proof fn lemma_default_is_unstarted(workflows: Seq<WorkflowView>, w: int, s: int)
    requires
        0 <= w < workflows.len(),
        0 <= s < workflows[w].states.len(),
        is_unstarted(workflows[w].states[s]),
    ensures
        exists|i: int|
            0 <= i < all_stages(workflows).len() && is_unstarted(
                #[trigger] all_stages(workflows)[i],
            ) && default_stage(workflows) == Some(all_stages(workflows)[i].id),
{
    let stages = all_stages(workflows);
    lemma_all_stages_holds(workflows, w, s);
    lemma_first_unstarted(stages);
}

/// Each stage of each workflow is a stage of `all_stages`.
pub proof fn lemma_all_stages_holds(workflows: Seq<WorkflowView>, w: int, s: int)
    requires
        0 <= w < workflows.len(),
        0 <= s < workflows[w].states.len(),
    ensures
        exists|i: int|
            0 <= i < all_stages(workflows).len() && #[trigger] all_stages(workflows)[i]
                == workflows[w].states[s],
    decreases workflows.len(),
{
    let before = workflows.drop_last();
    if w < workflows.len() - 1 {
        lemma_all_stages_holds(before, w, s);
        let i = choose|i: int|
            0 <= i < all_stages(before).len() && #[trigger] all_stages(before)[i]
                == before[w].states[s];
        assert(all_stages(workflows)[i] == workflows[w].states[s]);
    } else {
        let i = all_stages(before).len() + s;
        assert(all_stages(workflows)[i] == workflows[w].states[s]);
    }
}

/// Whether the person `x` can be referred to by `key`: `x` is not disabled
/// and `key` is its display name, its mention handle or its e-mail address.
pub open spec fn names_member(x: MemberView, key: Seq<char>) -> bool {
    !x.disabled && (key == x.name || key == x.mention_name || x.email_address == Some(key))
}

/// Whether `i` is the place of the last person of `people` that `key`
/// refers to.
pub open spec fn last_member(people: Seq<MemberView>, key: Seq<char>, i: int) -> bool {
    &&& 0 <= i < people.len()
    &&& names_member(people[i], key)
    &&& forall|j: int| i < j < people.len() ==> !names_member(#[trigger] people[j], key)
}

/// The table of people holds a key exactly if the key refers to a person
/// that is not disabled, and then it holds the identifier of the last such
/// person.
pub proof fn lemma_member_table(people: Seq<MemberView>, key: Seq<char>)
    ensures
        member_table(people).contains_key(key) <==> exists|i: int|
            0 <= i < people.len() && names_member(#[trigger] people[i], key),
        member_table(people).contains_key(key) ==> exists|i: int| #[trigger]
            last_member(people, key, i) && member_table(people)[key] == people[i].id,
    decreases people.len(),
{
    if people.len() > 0 {
        let before = people.drop_last();
        let n = people.len() - 1;
        lemma_member_table(before, key);
        if names_member(people.last(), key) {
            assert(names_member(people[n], key));
            assert(last_member(people, key, n));
        } else {
            if member_table(before).contains_key(key) {
                let i = choose|i: int| #[trigger]
                    last_member(before, key, i) && member_table(before)[key] == before[i].id;
                assert(people[i] == before[i]);
                assert forall|j: int| i < j < people.len() implies !names_member(
                    #[trigger] people[j],
                    key,
                ) by {
                    if j < n {
                        assert(people[j] == before[j]);
                    }
                }
                assert(last_member(people, key, i));
            }
            if exists|i: int| 0 <= i < people.len() && names_member(#[trigger] people[i], key) {
                let i = choose|i: int|
                    0 <= i < people.len() && names_member(#[trigger] people[i], key);
                assert(before[i] == people[i]);
            }
        }
    }
}

/// Whether the team `x` can be referred to by `key`: `x` is not archived
/// and `key` is its display name or its mention handle.
pub open spec fn names_group(x: GroupView, key: Seq<char>) -> bool {
    !x.archived && (key == x.name || key == x.mention_name)
}

/// Whether `i` is the place of the last team of `teams` that `key` refers
/// to.
pub open spec fn last_group(teams: Seq<GroupView>, key: Seq<char>, i: int) -> bool {
    &&& 0 <= i < teams.len()
    &&& names_group(teams[i], key)
    &&& forall|j: int| i < j < teams.len() ==> !names_group(#[trigger] teams[j], key)
}

/// The table of teams holds a key exactly if the key refers to a team that
/// is not archived, and then it holds the identifier of the last such team.
pub proof fn lemma_group_table(teams: Seq<GroupView>, key: Seq<char>)
    ensures
        group_table(teams).contains_key(key) <==> exists|i: int|
            0 <= i < teams.len() && names_group(#[trigger] teams[i], key),
        group_table(teams).contains_key(key) ==> exists|i: int| #[trigger]
            last_group(teams, key, i) && group_table(teams)[key] == teams[i].id,
    decreases teams.len(),
{
    if teams.len() > 0 {
        let before = teams.drop_last();
        let n = teams.len() - 1;
        lemma_group_table(before, key);
        if names_group(teams.last(), key) {
            assert(names_group(teams[n], key));
            assert(last_group(teams, key, n));
        } else {
            if group_table(before).contains_key(key) {
                let i = choose|i: int| #[trigger]
                    last_group(before, key, i) && group_table(before)[key] == before[i].id;
                assert(teams[i] == before[i]);
                assert forall|j: int| i < j < teams.len() implies !names_group(
                    #[trigger] teams[j],
                    key,
                ) by {
                    if j < n {
                        assert(teams[j] == before[j]);
                    }
                }
                assert(last_group(teams, key, i));
            }
            if exists|i: int| 0 <= i < teams.len() && names_group(#[trigger] teams[i], key) {
                let i = choose|i: int| 0 <= i < teams.len() && names_group(#[trigger] teams[i], key);
                assert(before[i] == teams[i]);
            }
        }
    }
}

/// Whether `i` is the place of the last stage of `stages` called `key`.
pub open spec fn last_stage(stages: Seq<WorkflowStateView>, key: Seq<char>, i: int) -> bool {
    &&& 0 <= i < stages.len()
    &&& stages[i].name == key
    &&& forall|j: int| i < j < stages.len() ==> (#[trigger] stages[j]).name != key
}

/// The table of stages holds a name exactly if a stage has it, and then it
/// holds the identifier of the last stage of that name: where workflows
/// share a name of a stage, the later workflow wins.
pub proof fn lemma_stage_table(stages: Seq<WorkflowStateView>, key: Seq<char>)
    ensures
        stage_table(stages).contains_key(key) <==> exists|i: int|
            0 <= i < stages.len() && (#[trigger] stages[i]).name == key,
        stage_table(stages).contains_key(key) ==> exists|i: int| #[trigger]
            last_stage(stages, key, i) && stage_table(stages)[key] == stages[i].id,
    decreases stages.len(),
{
    if stages.len() > 0 {
        let before = stages.drop_last();
        let n = stages.len() - 1;
        lemma_stage_table(before, key);
        if stages.last().name == key {
            assert(stages[n].name == key);
            assert(last_stage(stages, key, n));
        } else {
            if stage_table(before).contains_key(key) {
                let i = choose|i: int| #[trigger]
                    last_stage(before, key, i) && stage_table(before)[key] == before[i].id;
                assert(stages[i] == before[i]);
                assert forall|j: int| i < j < stages.len() implies (#[trigger] stages[j]).name
                    != key by {
                    if j < n {
                        assert(stages[j] == before[j]);
                    }
                }
                assert(last_stage(stages, key, i));
            }
            if exists|i: int| 0 <= i < stages.len() && (#[trigger] stages[i]).name == key {
                let i = choose|i: int| 0 <= i < stages.len() && (#[trigger] stages[i]).name == key;
                assert(before[i] == stages[i]);
            }
        }
    }
}

} // verus!
