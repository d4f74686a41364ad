use bypass::api::models::{Group, Member, MemberProfile, Workflow, WorkflowState};
use bypass::commands::create::{
    CreateRequest, Failure, Outcome, Pipeline, RecordKind, RunResults, Step,
};
use bypass::input::models::{InputEpic, InputFile, InputObjective, InputStory};
use bypass::resolver::Resolver;
use bypass::template::Template;

fn resolver() -> Resolver {
    let members = vec![Member {
        id: "m-1".to_string(),
        profile: MemberProfile {
            name: "Ada Lovelace".to_string(),
            mention_name: "ada".to_string(),
            email_address: None,
        },
        disabled: false,
    }];
    let groups = vec![Group {
        id: "g-1".to_string(),
        name: "Platform".to_string(),
        mention_name: "platform".to_string(),
        archived: false,
    }];
    let workflows = vec![Workflow {
        id: 1,
        name: "Engineering".to_string(),
        default_state_id: 500,
        states: vec![
            WorkflowState { id: 500, name: "Doing".to_string(), state_type: "started".to_string() },
            WorkflowState { id: 501, name: "Todo".to_string(), state_type: "unstarted".to_string() },
        ],
    }];
    Resolver::from_workspace(&members, &groups, &workflows)
}

fn objective(name: &str) -> InputObjective {
    InputObjective { name: name.to_string(), description: None, state: None }
}

fn epic(name: &str, objective: Option<&str>) -> InputEpic {
    InputEpic {
        name: name.to_string(),
        description: None,
        objective: objective.map(|o| o.to_string()),
        owners: vec![],
        teams: vec![],
        labels: vec![],
        state: None,
        start_date: None,
        deadline: None,
        template: None,
    }
}

fn story(name: &str, epic: Option<&str>) -> InputStory {
    InputStory {
        name: name.to_string(),
        story_type: None,
        description: None,
        epic: epic.map(|e| e.to_string()),
        owners: vec![],
        team: None,
        labels: vec![],
        estimate: None,
        due_date: None,
        workflow_state: None,
    }
}

fn call_name(request: &CreateRequest) -> String {
    match request {
        CreateRequest::Objective(r) => format!("objective:{}", r.name),
        CreateRequest::Epic(r) => format!("epic:{}", r.name),
        CreateRequest::Story(r) => format!("story:{}", r.name),
    }
}

#[test]
fn batch_is_created_tier_by_tier_with_forward_references() {
    let input = InputFile {
        objectives: vec![objective("Grow"), objective("Delight")],
        epics: vec![epic("Signup", None), epic("Onboarding", Some("Delight")), epic("Billing", None)],
        stories: vec![story("Form", Some("Signup"))],
    };
    let mut pipeline = Pipeline::new(input, resolver(), None);
    let mut calls = Vec::new();
    let mut next_id = 1000;
    let mut onboarding_objectives = None;
    let mut form_epic = None;
    let mut delight_id = None;
    let mut signup_id = None;
    loop {
        let (next, found) = pipeline.prepare(None);
        pipeline = next;
        match found {
            Step::Submit { kind: _, name, request } => {
                calls.push(call_name(&request));
                next_id += 7;
                match &request {
                    CreateRequest::Objective(_) if name == "Delight" => delight_id = Some(next_id),
                    CreateRequest::Epic(r) if name == "Signup" => {
                        signup_id = Some(next_id);
                        assert_eq!(r.objective_ids, None);
                    }
                    CreateRequest::Epic(r) if name == "Onboarding" => {
                        onboarding_objectives = r.objective_ids.clone()
                    }
                    CreateRequest::Story(r) => form_epic = r.epic_id,
                    _ => {}
                }
                pipeline = pipeline.complete(Outcome::Created { id: next_id });
            }
            Step::Skipped { name, message, .. } => panic!("{} was skipped: {}", name, message),
            Step::Finished => break,
        }
    }
    assert_eq!(
        calls,
        vec![
            "objective:Grow",
            "objective:Delight",
            "epic:Signup",
            "epic:Onboarding",
            "epic:Billing",
            "story:Form"
        ]
    );
    assert_eq!(delight_id, Some(1014));
    assert_eq!(onboarding_objectives, Some(vec![1014]));
    assert_eq!(signup_id, Some(1021));
    assert_eq!(form_epic, Some(1021));
    let results = pipeline.into_results();
    assert_eq!(results.objectives_ok, 2);
    assert_eq!(results.epics_ok, 3);
    assert_eq!(results.stories_ok, 1);
    assert!(results.succeeded());
    assert_eq!(results.exit_code(), 0);
    assert_eq!(results.error_count(), 0);
}

#[test]
fn empty_batch_is_finished_at_once() {
    let mut pipeline = Pipeline::new(InputFile::default(), resolver(), None);
    assert!(pipeline.finished());
    let (next, found) = pipeline.prepare(None);
    pipeline = next;
    assert!(matches!(found, Step::Finished));
    let (next, found) = pipeline.prepare(None);
    pipeline = next;
    assert!(matches!(found, Step::Finished));
    assert!(pipeline.results().succeeded());
}

#[test]
fn batch_of_stories_only_starts_with_the_stories() {
    let input = InputFile { objectives: vec![], epics: vec![], stories: vec![story("Lone", None)] };
    let mut pipeline = Pipeline::new(input, resolver(), None);
    assert!(!pipeline.finished());
    let (next, found) = pipeline.prepare(None);
    pipeline = next;
    match found {
        Step::Submit { kind, name, request: CreateRequest::Story(r) } => {
            assert_eq!(kind, RecordKind::Story);
            assert_eq!(name, "Lone");
            assert_eq!(r.workflow_state_id, Some(501));
        }
        other => panic!("unexpected step {:?}", other),
    }
    pipeline = pipeline.complete(Outcome::Created { id: 1 });
    assert!(pipeline.finished());
    assert_eq!(pipeline.results().stories_ok, 1);
}

#[test]
fn failed_call_is_recorded_and_the_run_goes_on() {
    let input = InputFile {
        objectives: vec![objective("A"), objective("B"), objective("C")],
        epics: vec![epic("E", Some("B")), epic("F", Some("C"))],
        stories: vec![],
    };
    let mut pipeline = Pipeline::new(input, resolver(), None);
    let mut sent = Vec::new();
    let mut skipped = Vec::new();
    loop {
        let (next, found) = pipeline.prepare(None);
        pipeline = next;
        match found {
            Step::Submit { name, request, .. } => {
                sent.push(call_name(&request));
                if name == "B" {
                    pipeline = pipeline.complete(Outcome::Failed {
                        message: "Shortcut API error (HTTP 422): nope".to_string(),
                    });
                } else {
                    pipeline = pipeline.complete(Outcome::Created { id: 10 + sent.len() as i64 });
                }
            }
            Step::Skipped { kind, name, message } => skipped.push((kind, name, message)),
            Step::Finished => break,
        }
    }
    assert_eq!(sent, vec!["objective:A", "objective:B", "objective:C", "epic:F"]);
    assert_eq!(
        skipped,
        vec![(
            RecordKind::Epic,
            "E".to_string(),
            "Name not found – no objective named 'B' in this workspace".to_string()
        )]
    );
    let results = pipeline.into_results();
    assert_eq!(results.objectives_ok, 2);
    assert_eq!(results.epics_ok, 1);
    assert_eq!(results.stories_ok, 0);
    assert!(!results.succeeded());
    assert_eq!(results.exit_code(), 1);
    assert_eq!(results.error_count(), 2);
    assert_eq!(
        results.error_texts(),
        vec![
            "Objective 'B': Shortcut API error (HTTP 422): nope",
            "Epic 'E': Name not found – no objective named 'B' in this workspace"
        ]
    );
}

#[test]
fn reference_to_a_later_record_of_the_tier_fails() {
    let input = InputFile {
        objectives: vec![],
        epics: vec![epic("First", None), epic("Second", None)],
        stories: vec![story("S1", Some("Second")), story("S2", Some("Third"))],
    };
    let mut pipeline = Pipeline::new(input, resolver(), None);
    let mut epic_of_s1 = None;
    let mut skipped = Vec::new();
    let mut id = 0;
    loop {
        let (next, found) = pipeline.prepare(None);
        pipeline = next;
        match found {
            Step::Submit { name, request, .. } => {
                id += 1;
                if let CreateRequest::Story(r) = &request {
                    assert_eq!(name, "S1");
                    epic_of_s1 = r.epic_id;
                }
                pipeline = pipeline.complete(Outcome::Created { id });
            }
            Step::Skipped { name, .. } => skipped.push(name),
            Step::Finished => break,
        }
    }
    assert_eq!(epic_of_s1, Some(2));
    assert_eq!(skipped, vec!["S2"]);
}

#[test]
fn stories_are_never_registered() {
    let input = InputFile {
        objectives: vec![],
        epics: vec![],
        stories: vec![story("Twin", None), story("Other", Some("Twin"))],
    };
    let mut pipeline = Pipeline::new(input, resolver(), None);
    let (next, found) = pipeline.prepare(None);
    pipeline = next;
    assert!(matches!(found, Step::Submit { .. }));
    pipeline = pipeline.complete(Outcome::Created { id: 5 });
    assert!(pipeline.resolver().resolve_epic("Twin").is_err());
    assert!(pipeline.resolver().resolve_objective("Twin").is_err());
    let (next, found) = pipeline.prepare(None);
    pipeline = next;
    assert!(matches!(found, Step::Skipped { .. }));
    assert!(pipeline.finished());
}

#[test]
fn registration_follows_success_only() {
    let input = InputFile {
        objectives: vec![objective("Goal")],
        epics: vec![epic("Work", None)],
        stories: vec![],
    };
    let mut pipeline = Pipeline::new(input, resolver(), None);
    let (next, found) = pipeline.prepare(None);
    pipeline = next;
    assert!(matches!(found, Step::Submit { .. }));
    assert!(pipeline.resolver().resolve_objective("Goal").is_err());
    pipeline = pipeline.complete(Outcome::Failed { message: "down".to_string() });
    assert!(pipeline.resolver().resolve_objective("Goal").is_err());
    let (next, found) = pipeline.prepare(None);
    pipeline = next;
    assert!(matches!(found, Step::Submit { .. }));
    assert!(pipeline.resolver().resolve_epic("Work").is_err());
    pipeline = pipeline.complete(Outcome::Created { id: 31 });
    assert_eq!(pipeline.resolver().resolve_epic("Work").unwrap(), 31);
    assert!(pipeline.finished());
}

#[test]
fn prepare_again_hands_out_the_same_record() {
    let input = InputFile { objectives: vec![objective("Goal")], epics: vec![], stories: vec![] };
    let mut pipeline = Pipeline::new(input, resolver(), None);
    for _ in 0..3 {
        let (next, found) = pipeline.prepare(None);
        pipeline = next;
        match found {
            Step::Submit { name, .. } => assert_eq!(name, "Goal"),
            other => panic!("unexpected step {:?}", other),
        }
    }
    assert_eq!(pipeline.results().objectives_ok, 0);
    pipeline = pipeline.complete(Outcome::Created { id: 1 });
    assert_eq!(pipeline.results().objectives_ok, 1);
    assert!(pipeline.finished());
}

#[test]
fn outcome_that_nobody_asked_for_is_ignored() {
    let input = InputFile { objectives: vec![objective("Goal")], epics: vec![], stories: vec![] };
    let mut pipeline = Pipeline::new(input, resolver(), None);
    pipeline = pipeline.complete(Outcome::Created { id: 1 });
    pipeline = pipeline.complete(Outcome::Failed { message: "x".to_string() });
    assert!(!pipeline.finished());
    assert_eq!(pipeline.results().objectives_ok, 0);
    assert_eq!(pipeline.results().error_count(), 0);
    assert!(pipeline.resolver().resolve_objective("Goal").is_err());
    let (next, found) = pipeline.prepare(None);
    pipeline = next;
    assert!(matches!(found, Step::Submit { .. }));
    pipeline = pipeline.complete(Outcome::Created { id: 1 });
    pipeline = pipeline.complete(Outcome::Created { id: 2 });
    assert_eq!(pipeline.results().objectives_ok, 1);
    assert_eq!(pipeline.resolver().resolve_objective("Goal").unwrap(), 1);
}

#[test]
fn template_of_the_epic_overrides_the_template_of_the_run() {
    let mut with_own = epic("Own", None);
    with_own.template = Some("own.md".to_string());
    with_own.description = Some("raw".to_string());
    let mut without = epic("Plain", None);
    without.description = Some("raw".to_string());
    let input = InputFile { objectives: vec![], epics: vec![with_own, without], stories: vec![] };
    let global = Template::new("global {{name}}".to_string());
    let mut pipeline = Pipeline::new(input, resolver(), Some(global));
    assert_eq!(pipeline.template_path(), Some("own.md"));
    let own = Template::new("own {{name}}: {{description}}".to_string());
    let (next, found) = pipeline.prepare(Some(&own));
    pipeline = next;
    match found {
        Step::Submit { request: CreateRequest::Epic(r), .. } => {
            assert_eq!(r.description.as_deref(), Some("own Own: raw"))
        }
        other => panic!("unexpected step {:?}", other),
    }
    pipeline = pipeline.complete(Outcome::Created { id: 1 });
    assert_eq!(pipeline.template_path(), None);
    let (next, found) = pipeline.prepare(None);
    pipeline = next;
    match found {
        Step::Submit { request: CreateRequest::Epic(r), .. } => {
            assert_eq!(r.description.as_deref(), Some("global Plain"))
        }
        other => panic!("unexpected step {:?}", other),
    }
}

#[test]
fn without_a_template_the_description_is_kept() {
    let mut e = epic("Plain", None);
    e.description = Some("as {{name}} is".to_string());
    let input = InputFile { objectives: vec![], epics: vec![e, epic("Bare", None)], stories: vec![] };
    let mut pipeline = Pipeline::new(input, resolver(), None);
    let (next, found) = pipeline.prepare(None);
    pipeline = next;
    match found {
        Step::Submit { request: CreateRequest::Epic(r), .. } => {
            assert_eq!(r.description.as_deref(), Some("as {{name}} is"))
        }
        other => panic!("unexpected step {:?}", other),
    }
    pipeline = pipeline.complete(Outcome::Created { id: 1 });
    let (next, found) = pipeline.prepare(None);
    pipeline = next;
    match found {
        Step::Submit { request: CreateRequest::Epic(r), .. } => assert_eq!(r.description, None),
        other => panic!("unexpected step {:?}", other),
    }
}

#[test]
fn template_path_is_told_for_epics_only() {
    let input = InputFile {
        objectives: vec![objective("O")],
        epics: vec![],
        stories: vec![story("S", None)],
    };
    let mut pipeline = Pipeline::new(input, resolver(), None);
    assert_eq!(pipeline.template_path(), None);
    let (next, found) = pipeline.prepare(None);
    pipeline = next;
    assert!(matches!(found, Step::Submit { .. }));
    pipeline = pipeline.complete(Outcome::Created { id: 1 });
    assert_eq!(pipeline.template_path(), None);
}

#[test]
fn failure_entry_is_one_line() {
    let f = Failure {
        kind: RecordKind::Story,
        name: "Fix login".to_string(),
        message: "Shortcut API error (HTTP 500): oops".to_string(),
    };
    assert_eq!(f.text(), "Story 'Fix login': Shortcut API error (HTTP 500): oops");
    assert_eq!(RecordKind::Objective.label(), "Objective");
    assert_eq!(RecordKind::Epic.label(), "Epic");
    assert_eq!(RecordKind::Objective.noun(), "objective");
    assert_eq!(RecordKind::Epic.noun(), "epic");
    assert_eq!(RecordKind::Story.noun(), "story");
}

#[test]
fn new_results_are_empty() {
    let r = RunResults::new();
    assert_eq!((r.objectives_ok, r.epics_ok, r.stories_ok), (0, 0, 0));
    assert!(r.errors.is_empty());
    assert!(r.succeeded());
    assert_eq!(r.exit_code(), 0);
    assert!(r.error_texts().is_empty());
}
