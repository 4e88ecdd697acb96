use lab_sync::workflow::{parse_state, WorkflowState};

#[test]
fn test_transitions_from_e1() {
    let state = WorkflowState::E1;
    assert!(state.can_transition_to(WorkflowState::E2));
    assert!(state.can_transition_to(WorkflowState::E3));
    assert!(!state.can_transition_to(WorkflowState::E6));
}

#[test]
fn test_terminal_states() {
    assert!(WorkflowState::E3.is_terminal());
    assert!(WorkflowState::E15.is_terminal());
    assert!(!WorkflowState::E1.is_terminal());
}

#[test]
fn test_parse_and_display() {
    let state: WorkflowState = "E10".parse().unwrap();
    assert_eq!(state, WorkflowState::E10);
    assert_eq!(state.label(), "E10");
}

#[test]
fn test_parse_case_insensitive() {
    let state: WorkflowState = "e5".parse().unwrap();
    assert_eq!(state, WorkflowState::E5);
}

#[test]
fn test_parse_invalid() {
    let result: Result<WorkflowState, _> = "E99".parse();
    assert!(result.is_err());
}

#[test]
fn test_default() {
    assert_eq!(WorkflowState::default(), WorkflowState::E1);
}

const ALL_STATES: [WorkflowState; 15] = [
    WorkflowState::E1,
    WorkflowState::E2,
    WorkflowState::E3,
    WorkflowState::E4,
    WorkflowState::E5,
    WorkflowState::E6,
    WorkflowState::E7,
    WorkflowState::E8,
    WorkflowState::E9,
    WorkflowState::E10,
    WorkflowState::E11,
    WorkflowState::E12,
    WorkflowState::E13,
    WorkflowState::E14,
    WorkflowState::E15,
];

#[test]
fn test_terminal_states_have_no_transitions() {
    for terminal in [WorkflowState::E3, WorkflowState::E15] {
        assert!(terminal.allowed_transitions().is_empty());
        for target in ALL_STATES {
            assert!(!terminal.can_transition_to(target));
        }
    }
}

#[test]
fn test_no_state_reachable_from_terminal_in_table() {
    // Adversarial check of the static table: no state lists a terminal
    // state as a source of an edge, because terminal states appear with
    // empty adjacency lists.
    for terminal in [WorkflowState::E3, WorkflowState::E15] {
        assert_eq!(terminal.allowed_transitions().len(), 0);
    }
    // And every edge listed is reported by the membership test.
    for from in ALL_STATES {
        for to in from.allowed_transitions() {
            assert!(from.can_transition_to(to));
            assert!(!from.is_terminal());
        }
    }
}

#[test]
fn test_labels_roundtrip_through_parser() {
    for state in ALL_STATES {
        let parsed = parse_state(state.label()).unwrap();
        assert_eq!(parsed, state);
        let lower = state.label().to_lowercase();
        assert_eq!(parse_state(&lower).unwrap(), state);
    }
}

#[test]
fn test_parse_rejects_padded_labels() {
    assert!(parse_state(" E5").is_err());
    assert!(parse_state("E5 ").is_err());
    assert!(parse_state("").is_err());
    assert!(parse_state("E05").is_err());
}

#[test]
fn test_display_names() {
    assert_eq!(WorkflowState::E1.display_name(), "Sin programación");
    assert_eq!(WorkflowState::E12.display_name(), "Por enviar");
    assert_eq!(WorkflowState::E15.display_name(), "Facturado");
}
