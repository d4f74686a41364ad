use bypass::api::models::{Group, Member, MemberProfile, Workflow, WorkflowState};
use bypass::commands::requests::{
    build_epic_request, build_objective_request, build_story_request, labels_param,
};
use bypass::error::BypassError;
use bypass::input::models::{InputEpic, InputObjective, InputStory};
use bypass::resolver::Resolver;
use bypass::template::Template;

fn resolver() -> Resolver {
    let members = vec![
        Member {
            id: "m-1".to_string(),
            profile: MemberProfile {
                name: "Ada Lovelace".to_string(),
                mention_name: "ada".to_string(),
                email_address: Some("ada@example.com".to_string()),
            },
            disabled: false,
        },
        Member {
            id: "m-2".to_string(),
            profile: MemberProfile {
                name: "Grace Hopper".to_string(),
                mention_name: "grace".to_string(),
                email_address: None,
            },
            disabled: false,
        },
    ];
    let groups = vec![Group {
        id: "g-1".to_string(),
        name: "Platform".to_string(),
        mention_name: "platform".to_string(),
        archived: false,
    }];
    let workflows = vec![Workflow {
        id: 1,
        name: "Engineering".to_string(),
        default_state_id: 500,
        states: vec![
            WorkflowState { id: 500, name: "Doing".to_string(), state_type: "started".to_string() },
            WorkflowState { id: 501, name: "Todo".to_string(), state_type: "unstarted".to_string() },
        ],
    }];
    let mut r = Resolver::from_workspace(&members, &groups, &workflows);
    r.register_objective("Delight".to_string(), 9001);
    r.register_epic("Signup".to_string(), 9002);
    r
}

fn strings(items: &[&str]) -> Vec<String> {
    items.iter().map(|s| s.to_string()).collect()
}

fn full_epic() -> InputEpic {
    InputEpic {
        name: "Onboarding".to_string(),
        description: Some("Make the first hour easy".to_string()),
        objective: Some("Delight".to_string()),
        owners: strings(&["ada", " Grace Hopper "]),
        teams: strings(&["Platform"]),
        labels: strings(&["ux", "q3"]),
        state: Some("to do".to_string()),
        start_date: Some("2024-01-15".to_string()),
        deadline: Some("2024-03-01".to_string()),
        template: None,
    }
}

fn full_story() -> InputStory {
    InputStory {
        name: "Form".to_string(),
        story_type: Some("feature".to_string()),
        description: Some("The form".to_string()),
        epic: Some("Signup".to_string()),
        owners: strings(&["ada@example.com"]),
        team: Some("platform".to_string()),
        labels: strings(&["ux"]),
        estimate: Some(3),
        due_date: Some("2024-02-01".to_string()),
        workflow_state: Some("Doing".to_string()),
    }
}

fn not_found(e: BypassError) -> (String, String) {
    match e {
        BypassError::NameNotFound { resource_type, name } => (resource_type, name),
        other => panic!("expected NameNotFound, got {:?}", other),
    }
}

#[test]
fn no_names_no_labels() {
    assert!(labels_param(&[]).is_none());
}

#[test]
fn one_label_per_name_in_order() {
    let labels = labels_param(&strings(&["b", "a", "b", ""])).unwrap();
    let names: Vec<&str> = labels.iter().map(|l| l.name.as_str()).collect();
    assert_eq!(names, vec!["b", "a", "b", ""]);
}

#[test]
fn objective_request_copies_the_record() {
    let r = build_objective_request(&InputObjective {
        name: "Delight".to_string(),
        description: Some("Users smile".to_string()),
        state: Some("in progress".to_string()),
    });
    assert_eq!(r.name, "Delight");
    assert_eq!(r.description.as_deref(), Some("Users smile"));
    assert_eq!(r.state.as_deref(), Some("in progress"));
    let r = build_objective_request(&InputObjective {
        name: String::new(),
        description: None,
        state: None,
    });
    assert_eq!(r.name, "");
    assert_eq!(r.description, None);
    assert_eq!(r.state, None);
}

#[test]
fn epic_request_resolves_every_reference() {
    let r = build_epic_request(&full_epic(), &resolver(), None).unwrap();
    assert_eq!(r.name, "Onboarding");
    assert_eq!(r.description.as_deref(), Some("Make the first hour easy"));
    assert_eq!(r.state.as_deref(), Some("to do"));
    assert_eq!(r.objective_ids, Some(vec![9001]));
    assert_eq!(r.owner_ids, Some(strings(&["m-1", "m-2"])));
    assert_eq!(r.group_ids, Some(strings(&["g-1"])));
    let labels: Vec<String> = r.labels.unwrap().into_iter().map(|l| l.name).collect();
    assert_eq!(labels, strings(&["ux", "q3"]));
    assert_eq!(r.planned_start_date.as_deref(), Some("2024-01-15"));
    assert_eq!(r.deadline.as_deref(), Some("2024-03-01"));
}

#[test]
fn bare_epic_request_has_no_lists() {
    let bare = InputEpic {
        name: "Bare".to_string(),
        description: None,
        objective: None,
        owners: vec![],
        teams: vec![],
        labels: vec![],
        state: None,
        start_date: None,
        deadline: None,
        template: Some("ignored-here.md".to_string()),
    };
    let r = build_epic_request(&bare, &resolver(), None).unwrap();
    assert_eq!(r.name, "Bare");
    assert_eq!(r.description, None);
    assert_eq!(r.objective_ids, None);
    assert_eq!(r.owner_ids, None);
    assert_eq!(r.group_ids, None);
    assert!(r.labels.is_none());
    assert_eq!(r.planned_start_date, None);
    assert_eq!(r.deadline, None);
}

#[test]
fn epic_request_with_numeric_objective() {
    let mut e = full_epic();
    e.objective = Some(" 314 ".to_string());
    assert_eq!(build_epic_request(&e, &resolver(), None).unwrap().objective_ids, Some(vec![314]));
}

#[test]
fn epic_request_renders_the_template() {
    let t = Template::new("# {{name}}\n{{description}}\nby {{owners}}".to_string());
    let r = build_epic_request(&full_epic(), &resolver(), Some(&t)).unwrap();
    assert_eq!(
        r.description.as_deref(),
        Some("# Onboarding\nMake the first hour easy\nby ada,  Grace Hopper ")
    );
}

#[test]
fn epic_request_fails_on_the_first_unresolved_reference() {
    let r = resolver();
    let mut e = full_epic();
    e.owners = strings(&["ada", "nobody"]);
    e.teams = strings(&["Ops"]);
    e.objective = Some("Missing".to_string());
    let (kind, name) = not_found(build_epic_request(&e, &r, None).unwrap_err());
    assert_eq!((kind.as_str(), name.as_str()), ("user", "nobody"));
    e.owners = strings(&["ada"]);
    let (kind, name) = not_found(build_epic_request(&e, &r, None).unwrap_err());
    assert_eq!((kind.as_str(), name.as_str()), ("team", "Ops"));
    e.teams = vec![];
    let (kind, name) = not_found(build_epic_request(&e, &r, None).unwrap_err());
    assert_eq!((kind.as_str(), name.as_str()), ("objective", "Missing"));
    e.objective = None;
    assert!(build_epic_request(&e, &r, None).is_ok());
}

#[test]
fn story_request_resolves_every_reference() {
    let r = build_story_request(&full_story(), &resolver()).unwrap();
    assert_eq!(r.name, "Form");
    assert_eq!(r.story_type.as_deref(), Some("feature"));
    assert_eq!(r.description.as_deref(), Some("The form"));
    assert_eq!(r.owner_ids, Some(strings(&["m-1"])));
    assert_eq!(r.group_id.as_deref(), Some("g-1"));
    assert_eq!(r.epic_id, Some(9002));
    assert_eq!(r.workflow_state_id, Some(500));
    let labels: Vec<String> = r.labels.unwrap().into_iter().map(|l| l.name).collect();
    assert_eq!(labels, strings(&["ux"]));
    assert_eq!(r.estimate, Some(3));
    assert_eq!(r.deadline.as_deref(), Some("2024-02-01"));
}

#[test]
fn story_without_stage_gets_the_default_stage() {
    let mut s = full_story();
    s.workflow_state = None;
    assert_eq!(build_story_request(&s, &resolver()).unwrap().workflow_state_id, Some(501));
    let none = Resolver::from_workspace(&vec![], &vec![], &vec![]);
    s.owners = vec![];
    s.team = None;
    s.epic = None;
    assert_eq!(build_story_request(&s, &none).unwrap().workflow_state_id, None);
}

#[test]
fn story_without_stage_falls_back_to_the_declared_default() {
    let workflows = vec![Workflow {
        id: 1,
        name: "Ops".to_string(),
        default_state_id: 77,
        states: vec![WorkflowState {
            id: 78,
            name: "Doing".to_string(),
            state_type: "started".to_string(),
        }],
    }];
    let r = Resolver::from_workspace(&vec![], &vec![], &workflows);
    let s = InputStory {
        name: "S".to_string(),
        story_type: None,
        description: None,
        epic: None,
        owners: vec![],
        team: None,
        labels: vec![],
        estimate: None,
        due_date: None,
        workflow_state: None,
    };
    let request = build_story_request(&s, &r).unwrap();
    assert_eq!(request.workflow_state_id, Some(77));
    assert_eq!(request.owner_ids, None);
    assert_eq!(request.group_id, None);
    assert_eq!(request.epic_id, None);
    assert!(request.labels.is_none());
    assert_eq!(request.estimate, None);
}

#[test]
fn story_request_fails_on_the_first_unresolved_reference() {
    let r = resolver();
    let mut s = full_story();
    s.owners = strings(&["nobody"]);
    s.team = Some("Ops".to_string());
    s.epic = Some("Missing".to_string());
    s.workflow_state = Some("Nowhere".to_string());
    let (kind, name) = not_found(build_story_request(&s, &r).unwrap_err());
    assert_eq!((kind.as_str(), name.as_str()), ("user", "nobody"));
    s.owners = vec![];
    let (kind, name) = not_found(build_story_request(&s, &r).unwrap_err());
    assert_eq!((kind.as_str(), name.as_str()), ("team", "Ops"));
    s.team = None;
    let (kind, name) = not_found(build_story_request(&s, &r).unwrap_err());
    assert_eq!((kind.as_str(), name.as_str()), ("epic", "Missing"));
    s.epic = Some("12".to_string());
    let (kind, name) = not_found(build_story_request(&s, &r).unwrap_err());
    assert_eq!((kind.as_str(), name.as_str()), ("workflow state", "Nowhere"));
    s.workflow_state = Some(" Todo".to_string());
    let request = build_story_request(&s, &r).unwrap();
    assert_eq!(request.epic_id, Some(12));
    assert_eq!(request.workflow_state_id, Some(501));
}
