use artifex::agent::{apply_model_reply, needs_refine, AgentPhase, AgentState, ChatRole};

#[test]
fn test_agent_phase_progress_range() {
    assert_eq!(AgentPhase::Plan.progress_range(), (10, 25));
    assert_eq!(AgentPhase::Execute.progress_range(), (25, 75));
    assert_eq!(AgentPhase::Verify.progress_range(), (75, 90));
    assert_eq!(AgentPhase::Refine { iteration: 1 }.progress_range(), (90, 99));
    assert_eq!(AgentPhase::Done.progress_range(), (100, 100));
    assert_eq!(AgentPhase::Failed { reason: "err".to_string() }.progress_range(), (0, 0));
}

#[test]
fn test_agent_phase_name() {
    assert_eq!(AgentPhase::Plan.name(), "Planning");
    assert_eq!(AgentPhase::Execute.name(), "Executing");
    assert_eq!(AgentPhase::Verify.name(), "Verifying");
    assert_eq!(AgentPhase::Refine { iteration: 1 }.name(), "Refining");
    assert_eq!(AgentPhase::Done.name(), "Done");
    assert_eq!(AgentPhase::Failed { reason: "err".to_string() }.name(), "Failed");
}

#[test]
fn test_agent_phase_is_terminal() {
    assert!(!AgentPhase::Plan.is_terminal());
    assert!(!AgentPhase::Execute.is_terminal());
    assert!(!AgentPhase::Verify.is_terminal());
    assert!(!AgentPhase::Refine { iteration: 1 }.is_terminal());
    assert!(AgentPhase::Done.is_terminal());
    assert!(AgentPhase::Failed { reason: "err".to_string() }.is_terminal());
}

#[test]
fn test_agent_state_new() {
    let state = AgentState::new("Create a player controller".to_string());
    assert_eq!(state.phase, AgentPhase::Plan);
    assert!(state.plan.is_none());
    assert!(state.code_files.is_empty());
    assert_eq!(state.refine_iterations, 0);
    assert_eq!(state.messages.len(), 1);
    assert_eq!(state.messages[0].role, ChatRole::User);
    assert_eq!(state.messages[0].content, "Create a player controller");
}

#[test]
fn test_agent_state_transition_valid() {
    let mut state = AgentState::new("Test".to_string());
    assert!(state.transition_to(AgentPhase::Execute).is_ok());
    assert_eq!(state.phase, AgentPhase::Execute);
    assert!(state.transition_to(AgentPhase::Verify).is_ok());
    assert_eq!(state.phase, AgentPhase::Verify);
    assert!(state.transition_to(AgentPhase::Done).is_ok());
    assert_eq!(state.phase, AgentPhase::Done);
}

#[test]
fn test_agent_state_transition_invalid() {
    let mut state = AgentState::new("Test".to_string());
    assert!(state.transition_to(AgentPhase::Done).is_err());
    assert!(state.transition_to(AgentPhase::Verify).is_err());
}

#[test]
fn test_agent_state_refine_cap() {
    let mut state = AgentState::new("Test".to_string());
    state.transition_to(AgentPhase::Execute).unwrap();
    state.transition_to(AgentPhase::Verify).unwrap();

    assert!(state.transition_to(AgentPhase::Refine { iteration: 1 }).is_ok());
    state.increment_refine().unwrap();
    state.transition_to(AgentPhase::Verify).unwrap();

    assert!(state.transition_to(AgentPhase::Refine { iteration: 2 }).is_ok());
    state.increment_refine().unwrap();
    state.transition_to(AgentPhase::Verify).unwrap();

    assert!(state.transition_to(AgentPhase::Refine { iteration: 3 }).is_err());
}

#[test]
fn test_agent_state_cannot_transition_from_terminal() {
    let mut state = AgentState::new("Test".to_string());
    state.transition_to(AgentPhase::Execute).unwrap();
    state.transition_to(AgentPhase::Verify).unwrap();
    state.transition_to(AgentPhase::Done).unwrap();
    assert!(state.transition_to(AgentPhase::Plan).is_err());

    let mut state2 = AgentState::new("Test".to_string());
    state2.transition_to(AgentPhase::Execute).unwrap();
    state2.transition_to(AgentPhase::Verify).unwrap();
    state2.transition_to(AgentPhase::Failed { reason: "test".to_string() }).unwrap();
    assert!(state2.transition_to(AgentPhase::Plan).is_err());
}

#[test]
fn test_agent_state_add_message() {
    let mut state = AgentState::new("Test".to_string());
    state.add_message(ChatRole::System, "You are helpful".to_string());
    assert_eq!(state.messages.len(), 2);
    assert_eq!(state.messages[1].role, ChatRole::System);
    assert_eq!(state.messages[1].content, "You are helpful");
}

#[test]
fn agent_transition_error_messages() {
    let mut state = AgentState::new("Test".to_string());
    assert_eq!(
        state.transition_to(AgentPhase::Done),
        Err("Invalid transition from Plan to Done".to_string())
    );
    state.transition_to(AgentPhase::Execute).unwrap();
    state.transition_to(AgentPhase::Verify).unwrap();
    assert_eq!(
        state.transition_to(AgentPhase::Refine { iteration: 2 }),
        Err("Invalid refine iteration: expected 1, got 2".to_string())
    );
    state.transition_to(AgentPhase::Done).unwrap();
    assert_eq!(state.transition_to(AgentPhase::Plan), Err("Cannot transition from Done".to_string()));
}

#[test]
fn agent_increment_refine_stops_at_cap() {
    let mut state = AgentState::new("Test".to_string());
    assert!(state.increment_refine().is_ok());
    assert!(state.increment_refine().is_ok());
    assert_eq!(state.increment_refine(), Err("Already at max refine iterations".to_string()));
    assert_eq!(state.refine_iterations, 2);
}

#[test]
fn agent_terminal_phase_refuses_every_target() {
    let targets = vec![
        AgentPhase::Plan,
        AgentPhase::Execute,
        AgentPhase::Verify,
        AgentPhase::Refine { iteration: 1 },
        AgentPhase::Done,
        AgentPhase::Failed { reason: "x".to_string() },
    ];
    for t in targets {
        let mut state = AgentState::new("Test".to_string());
        state.transition_to(AgentPhase::Failed { reason: "stop".to_string() }).unwrap();
        assert!(state.transition_to(t).is_err());
        assert_eq!(state.phase, AgentPhase::Failed { reason: "stop".to_string() });
    }
}

#[test]
fn agent_reply_walks_plan_execute_verify_done() {
    let mut state = AgentState::new("Make a door".to_string());
    assert!(apply_model_reply(&mut state, "1. add door".to_string(), None).is_ok());
    assert_eq!(state.phase, AgentPhase::Execute);
    assert_eq!(state.plan, Some("1. add door".to_string()));
    assert!(apply_model_reply(&mut state, "{\"files\": []}".to_string(), None).is_ok());
    assert_eq!(state.phase, AgentPhase::Verify);
    assert!(apply_model_reply(&mut state, "Looks good".to_string(), None).is_ok());
    assert_eq!(state.phase, AgentPhase::Done);
    assert_eq!(state.messages.len(), 4);
}

#[test]
fn agent_reply_walks_through_refine_and_caps_it() {
    let mut state = AgentState::new("Make a door".to_string());
    apply_model_reply(&mut state, "plan".to_string(), None).unwrap();
    apply_model_reply(&mut state, "code".to_string(), None).unwrap();
    assert!(needs_refine("{\"Issues\":[\"door opens inward\"]}"));
    assert!(!needs_refine("{\"issues\":[],\"score\":9}"));
    let issues = "{\"issues\":[\"door opens inward\"]}";
    assert_eq!(apply_model_reply(&mut state, issues.to_string(), None), Ok(()));
    assert_eq!(state.phase, AgentPhase::Refine { iteration: 1 });
    assert_eq!(state.refine_iterations, 1);
    assert_eq!(state.verify_feedback, Some(issues.to_string()));
    apply_model_reply(&mut state, "code v2".to_string(), None).unwrap();
    assert_eq!(state.phase, AgentPhase::Verify);
    assert_eq!(apply_model_reply(&mut state, issues.to_string(), None), Ok(()));
    assert_eq!(state.phase, AgentPhase::Refine { iteration: 2 });
    assert_eq!(state.refine_iterations, 2);
    apply_model_reply(&mut state, "code v3".to_string(), None).unwrap();
    assert_eq!(
        apply_model_reply(&mut state, issues.to_string(), None),
        Err("Phase transition error: Cannot transition to Refine: already at max iterations (2)".to_string())
    );
    assert_eq!(state.phase, AgentPhase::Verify);
    assert_eq!(state.refine_iterations, 2);
}

#[test]
fn agent_reply_documented_run_plan_execute_verify_refine_done() {
    let mut state = AgentState::new("Make a door".to_string());
    apply_model_reply(&mut state, "plan".to_string(), None).unwrap();
    apply_model_reply(&mut state, "{\"files\":[]}".to_string(), None).unwrap();
    apply_model_reply(&mut state, "{\"issues\":[\"x\"]}".to_string(), None).unwrap();
    apply_model_reply(&mut state, "{\"files\":[]}".to_string(), None).unwrap();
    assert_eq!(apply_model_reply(&mut state, "{\"issues\":[]}".to_string(), None), Ok(()));
    assert_eq!(state.phase, AgentPhase::Done);
    assert_eq!(state.refine_iterations, 1);
}
