use bypass::api::models::{Group, Member, MemberProfile, Workflow, WorkflowState};
use bypass::commands::validate::{
    dry_run, validate_epic_state, validate_objective_state, validate_story_type,
};
use bypass::input::models::{InputEpic, InputFile, InputObjective, InputStory};
use bypass::resolver::Resolver;

fn member(id: &str, name: &str, mention: &str) -> Member {
    Member {
        id: id.to_string(),
        profile: MemberProfile {
            name: name.to_string(),
            mention_name: mention.to_string(),
            email_address: None,
        },
        disabled: false,
    }
}

fn resolver() -> Resolver {
    let members = vec![member("m-1", "Ada Lovelace", "ada"), member("m-2", "Grace Hopper", "grace")];
    let groups = vec![
        Group {
            id: "g-1".to_string(),
            name: "Platform".to_string(),
            mention_name: "platform".to_string(),
            archived: false,
        },
        Group {
            id: "g-2".to_string(),
            name: "Growth".to_string(),
            mention_name: "growth".to_string(),
            archived: false,
        },
    ];
    let workflows = vec![Workflow {
        id: 1,
        name: "Engineering".to_string(),
        default_state_id: 500,
        states: vec![
            WorkflowState { id: 500, name: "Doing".to_string(), state_type: "started".to_string() },
            WorkflowState { id: 501, name: "Todo".to_string(), state_type: "unstarted".to_string() },
        ],
    }];
    Resolver::from_workspace(&members, &groups, &workflows)
}

fn objective(name: &str, state: Option<&str>) -> InputObjective {
    InputObjective { name: name.to_string(), description: None, state: state.map(|s| s.to_string()) }
}

fn epic(name: &str) -> InputEpic {
    InputEpic {
        name: name.to_string(),
        description: None,
        objective: None,
        owners: vec![],
        teams: vec![],
        labels: vec![],
        state: None,
        start_date: None,
        deadline: None,
        template: None,
    }
}

fn story(name: &str) -> InputStory {
    InputStory {
        name: name.to_string(),
        story_type: None,
        description: None,
        epic: None,
        owners: vec![],
        team: None,
        labels: vec![],
        estimate: None,
        due_date: None,
        workflow_state: None,
    }
}

fn errors(input: &InputFile) -> Vec<String> {
    let report = dry_run(input, &resolver(), &vec![]);
    assert_eq!(report.valid, report.errors.is_empty());
    report.errors
}

#[test]
fn story_with_an_unknown_team_is_the_one_violation() {
    let mut s = story("Fix login");
    s.team = Some("Ops".to_string());
    let input = InputFile {
        objectives: vec![objective("Delight", Some("to do"))],
        epics: vec![epic("Signup")],
        stories: vec![s],
    };
    let r = resolver();
    let report = dry_run(&input, &r, &vec![]);
    assert!(!report.valid);
    assert_eq!(
        report.errors,
        vec!["Story 'Fix login': unknown team 'Ops'. Available: Growth, Platform, growth, platform"]
    );
    assert!(r.resolve_objective("Delight").is_err());
    assert!(r.resolve_epic("Signup").is_err());
}

#[test]
fn valid_batch_has_no_violation() {
    let mut e = epic("Signup");
    e.objective = Some("Delight".to_string());
    e.owners = vec!["ada".to_string(), " Grace Hopper".to_string()];
    e.teams = vec!["platform ".to_string()];
    e.state = Some("in progress".to_string());
    e.template = Some("epic.md".to_string());
    let mut s = story("Form");
    s.story_type = Some("chore".to_string());
    s.epic = Some("Signup".to_string());
    s.owners = vec!["grace".to_string()];
    s.team = Some("Growth".to_string());
    s.workflow_state = Some(" Todo ".to_string());
    let input = InputFile {
        objectives: vec![objective("Delight", Some("done")), objective("Grow", None)],
        epics: vec![e],
        stories: vec![s],
    };
    let report = dry_run(&input, &resolver(), &vec!["other.md".to_string()]);
    assert!(report.valid);
    assert!(report.errors.is_empty());
}

#[test]
fn empty_batch_is_valid() {
    assert!(dry_run(&InputFile::default(), &resolver(), &vec![]).valid);
}

#[test]
fn records_need_a_name() {
    let mut nameless_epic = epic("");
    nameless_epic.state = Some("bogus".to_string());
    nameless_epic.owners = vec!["nobody".to_string()];
    let mut nameless_story = story("");
    nameless_story.story_type = Some("bogus".to_string());
    let input = InputFile {
        objectives: vec![objective("", None), objective("", Some("bogus"))],
        epics: vec![nameless_epic],
        stories: vec![nameless_story],
    };
    assert_eq!(
        errors(&input),
        vec![
            "Objective: 'name' is required",
            "Objective: 'name' is required",
            "Objective '': invalid state 'bogus'. Must be 'in progress', 'to do', or 'done'",
            "Epic: 'name' is required",
            "Epic '': invalid state 'bogus'. Must be 'in progress', 'to do', or 'done'",
            "Epic '': unknown user 'nobody'. Available: Ada Lovelace, Grace Hopper, ada, grace",
            "Story: 'name' is required",
            "Story '': invalid type 'bogus'. Must be 'bug', 'chore', or 'feature'",
        ]
    );
}

#[test]
fn missing_name_does_not_hide_the_other_violations() {
    let mut e = epic("");
    e.owners = vec!["ghost".to_string()];
    let input = InputFile { objectives: vec![], epics: vec![e], stories: vec![] };
    let empty = Resolver::from_workspace(&vec![], &vec![], &vec![]);
    let report = dry_run(&input, &empty, &vec![]);
    assert!(!report.valid);
    assert_eq!(
        report.errors,
        vec!["Epic: 'name' is required", "Epic '': unknown user 'ghost'. Available: "]
    );
}

#[test]
fn nameless_records_are_checked_in_full() {
    let mut e = epic("");
    e.teams = vec!["Ops".to_string()];
    e.objective = Some("Missing".to_string());
    e.template = Some("gone.md".to_string());
    let mut s = story("");
    s.owners = vec!["bob".to_string()];
    s.team = Some("Ops".to_string());
    s.epic = Some("Missing".to_string());
    s.workflow_state = Some("Nowhere".to_string());
    let input = InputFile { objectives: vec![], epics: vec![e], stories: vec![s] };
    let report = dry_run(&input, &resolver(), &vec!["gone.md".to_string()]);
    assert_eq!(
        report.errors,
        vec![
            "Epic: 'name' is required",
            "Epic '': unknown team 'Ops'. Available: Growth, Platform, growth, platform",
            "Epic '': objective 'Missing' not found in current batch (use a numeric ID to reference a pre-existing objective)",
            "Epic '': template file 'gone.md' not found",
            "Story: 'name' is required",
            "Story '': unknown user 'bob'. Available: Ada Lovelace, Grace Hopper, ada, grace",
            "Story '': unknown team 'Ops'. Available: Growth, Platform, growth, platform",
            "Story '': epic 'Missing' not found in current batch (use a numeric ID to reference a pre-existing epic)",
            "Story '': unknown workflow state 'Nowhere'. Available: Doing, Todo",
        ]
    );
}

#[test]
fn nameless_epic_counts_as_a_record_of_the_batch() {
    let mut s = story("S");
    s.epic = Some("".to_string());
    let input = InputFile { objectives: vec![], epics: vec![epic("")], stories: vec![s] };
    assert_eq!(errors(&input), vec!["Epic: 'name' is required"]);
}

#[test]
fn states_and_types_are_enumerated() {
    let mut e = epic("E");
    e.state = Some("Done".to_string());
    let mut s = story("S");
    s.story_type = Some("task".to_string());
    let input = InputFile {
        objectives: vec![
            objective("A", Some("in progress")),
            objective("B", Some("to do")),
            objective("C", Some("done")),
            objective("D", Some("todo")),
            objective("E", Some(" done")),
        ],
        epics: vec![e],
        stories: vec![s],
    };
    assert_eq!(
        errors(&input),
        vec![
            "Objective 'D': invalid state 'todo'. Must be 'in progress', 'to do', or 'done'",
            "Objective 'E': invalid state ' done'. Must be 'in progress', 'to do', or 'done'",
            "Epic 'E': invalid state 'Done'. Must be 'in progress', 'to do', or 'done'",
            "Story 'S': invalid type 'task'. Must be 'bug', 'chore', or 'feature'",
        ]
    );
}

#[test]
fn story_types_that_are_accepted() {
    let mut stories = Vec::new();
    for t in ["bug", "chore", "feature"] {
        let mut s = story(t);
        s.story_type = Some(t.to_string());
        stories.push(s);
    }
    let input = InputFile { objectives: vec![], epics: vec![], stories };
    assert!(errors(&input).is_empty());
}

#[test]
fn every_violation_of_a_record_is_kept_in_order() {
    let mut e = epic("Signup");
    e.state = Some("later".to_string());
    e.owners = vec!["ada".to_string(), "bob".to_string(), "carol".to_string()];
    e.teams = vec!["Ops".to_string(), "Platform".to_string()];
    e.objective = Some("Missing".to_string());
    e.template = Some("gone.md".to_string());
    let input = InputFile { objectives: vec![], epics: vec![e], stories: vec![] };
    let report = dry_run(&input, &resolver(), &vec!["gone.md".to_string()]);
    assert_eq!(
        report.errors,
        vec![
            "Epic 'Signup': invalid state 'later'. Must be 'in progress', 'to do', or 'done'",
            "Epic 'Signup': unknown user 'bob'. Available: Ada Lovelace, Grace Hopper, ada, grace",
            "Epic 'Signup': unknown user 'carol'. Available: Ada Lovelace, Grace Hopper, ada, grace",
            "Epic 'Signup': unknown team 'Ops'. Available: Growth, Platform, growth, platform",
            "Epic 'Signup': objective 'Missing' not found in current batch (use a numeric ID to reference a pre-existing objective)",
            "Epic 'Signup': template file 'gone.md' not found",
        ]
    );
}

#[test]
fn every_violation_of_a_story_is_kept_in_order() {
    let mut s = story("Form");
    s.story_type = Some("Bug".to_string());
    s.owners = vec!["bob".to_string()];
    s.team = Some("Ops".to_string());
    s.epic = Some("Missing".to_string());
    s.workflow_state = Some("Nowhere".to_string());
    let input = InputFile { objectives: vec![], epics: vec![], stories: vec![s] };
    assert_eq!(
        errors(&input),
        vec![
            "Story 'Form': invalid type 'Bug'. Must be 'bug', 'chore', or 'feature'",
            "Story 'Form': unknown user 'bob'. Available: Ada Lovelace, Grace Hopper, ada, grace",
            "Story 'Form': unknown team 'Ops'. Available: Growth, Platform, growth, platform",
            "Story 'Form': epic 'Missing' not found in current batch (use a numeric ID to reference a pre-existing epic)",
            "Story 'Form': unknown workflow state 'Nowhere'. Available: Doing, Todo",
        ]
    );
}

#[test]
fn parent_may_be_a_number_or_a_record_of_the_batch() {
    let mut by_number = epic("ByNumber");
    by_number.objective = Some("123".to_string());
    let mut by_name = epic("ByName");
    by_name.objective = Some("Delight".to_string());
    let mut padded_number = epic("PaddedNumber");
    padded_number.objective = Some(" 123".to_string());
    let mut padded_name = epic("PaddedName");
    padded_name.objective = Some("Delight ".to_string());
    let mut s = story("S");
    s.epic = Some("PaddedName".to_string());
    let mut later = story("Later");
    later.epic = Some("Later".to_string());
    let input = InputFile {
        objectives: vec![objective("Delight", None)],
        epics: vec![by_number, by_name, padded_number, padded_name],
        stories: vec![s, later],
    };
    assert_eq!(
        errors(&input),
        vec![
            "Epic 'PaddedNumber': objective ' 123' not found in current batch (use a numeric ID to reference a pre-existing objective)",
            "Epic 'PaddedName': objective 'Delight ' not found in current batch (use a numeric ID to reference a pre-existing objective)",
            "Story 'Later': epic 'Later' not found in current batch (use a numeric ID to reference a pre-existing epic)",
        ]
    );
}

#[test]
fn parent_may_be_registered_already() {
    let mut r = resolver();
    r.register_objective("Old goal".to_string(), 5);
    r.register_epic("Old epic".to_string(), 6);
    let mut e = epic("E");
    e.objective = Some(" Old goal ".to_string());
    let mut s = story("S");
    s.epic = Some("Old epic".to_string());
    let input = InputFile { objectives: vec![], epics: vec![e], stories: vec![s] };
    assert!(dry_run(&input, &r, &vec![]).valid);
}

#[test]
fn template_is_reported_only_if_missing() {
    let mut e = epic("E");
    e.template = Some("a.md".to_string());
    let mut f = epic("F");
    f.template = Some("b.md".to_string());
    let input = InputFile { objectives: vec![], epics: vec![e, f, epic("G")], stories: vec![] };
    let report = dry_run(&input, &resolver(), &vec!["b.md".to_string(), "c.md".to_string()]);
    assert_eq!(report.errors, vec!["Epic 'F': template file 'b.md' not found"]);
}

#[test]
fn hint_shows_five_names_and_counts_the_rest() {
    let members: Vec<Member> = ["zed", "amy", "bob", "cat", "dan", "eve", "fay"]
        .iter()
        .map(|n| member(n, n, n))
        .collect();
    let r = Resolver::from_workspace(&members, &vec![], &vec![]);
    let mut e = epic("E");
    e.owners = vec!["nobody".to_string()];
    e.teams = vec!["none".to_string()];
    let mut s = story("S");
    s.workflow_state = Some("none".to_string());
    let input = InputFile { objectives: vec![], epics: vec![e], stories: vec![s] };
    assert_eq!(
        dry_run(&input, &r, &vec![]).errors,
        vec![
            "Epic 'E': unknown user 'nobody'. Available: amy, bob, cat, dan, eve … (+2)",
            "Epic 'E': unknown team 'none'. Available: ",
            "Story 'S': unknown workflow state 'none'. Available: ",
        ]
    );
}

#[test]
fn validation_repeats_byte_for_byte() {
    let mut e = epic("Signup");
    e.owners = vec!["bob".to_string()];
    e.objective = Some("Missing".to_string());
    let mut s = story("Form");
    s.team = Some("Ops".to_string());
    s.workflow_state = Some("Nowhere".to_string());
    let input = InputFile {
        objectives: vec![objective("", Some("x"))],
        epics: vec![e],
        stories: vec![s, story("")],
    };
    let first = dry_run(&input, &resolver(), &vec![]);
    let second = dry_run(&input, &resolver(), &vec![]);
    assert_eq!(first.errors.len(), 7);
    assert_eq!(first.errors, second.errors);
    assert_eq!(first.valid, second.valid);
    let r = resolver();
    let third = dry_run(&input, &r, &vec![]);
    let fourth = dry_run(&input, &r, &vec![]);
    assert_eq!(third.errors, first.errors);
    assert_eq!(fourth.errors, first.errors);
}

#[test]
fn validation_does_not_depend_on_the_order_of_the_workspace() {
    let forward = vec![member("m-1", "Ada", "ada"), member("m-2", "Bob", "bob")];
    let backward = vec![member("m-2", "Bob", "bob"), member("m-1", "Ada", "ada")];
    let mut e = epic("E");
    e.owners = vec!["carol".to_string()];
    let input = InputFile { objectives: vec![], epics: vec![e], stories: vec![] };
    let a = dry_run(&input, &Resolver::from_workspace(&forward, &vec![], &vec![]), &vec![]);
    let b = dry_run(&input, &Resolver::from_workspace(&backward, &vec![], &vec![]), &vec![]);
    assert_eq!(a.errors, vec!["Epic 'E': unknown user 'carol'. Available: Ada, Bob, ada, bob"]);
    assert_eq!(a.errors, b.errors);
}

#[test]
fn state_checks_append_to_the_list() {
    let mut list = vec!["kept".to_string()];
    validate_objective_state("done", "O", &mut list);
    validate_epic_state("to do", "E", &mut list);
    validate_story_type("bug", "S", &mut list);
    assert_eq!(list, vec!["kept"]);
    validate_objective_state("", "O", &mut list);
    validate_epic_state("doing", "E", &mut list);
    validate_story_type("", "S", &mut list);
    assert_eq!(
        list,
        vec![
            "kept",
            "Objective 'O': invalid state ''. Must be 'in progress', 'to do', or 'done'",
            "Epic 'E': invalid state 'doing'. Must be 'in progress', 'to do', or 'done'",
            "Story 'S': invalid type ''. Must be 'bug', 'chore', or 'feature'",
        ]
    );
}
