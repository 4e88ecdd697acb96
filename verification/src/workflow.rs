//! Lifecycle state machine for test records.
//!
//! A test record moves through fifteen labelled states; two of them
//! (cancellation and final billing) are terminal. The allowed transitions
//! form a fixed table that is business policy, written out explicitly here
//! and never inferred from data.

use vstd::prelude::*;
use crate::text::str_eq;

verus! {

/// The fifteen lifecycle states of a test record.
#[derive(Debug, Clone, Copy, PartialEq, Eq, Hash, Structural)]
pub enum WorkflowState {
    E1,
    E2,
    E3,
    E4,
    E5,
    E6,
    E7,
    E8,
    E9,
    E10,
    E11,
    E12,
    E13,
    E14,
    E15,
}

/// The transition table: `true` exactly when the policy allows a test to
/// move from `from` to `to` in one step.
pub open spec fn spec_can_transition(from: WorkflowState, to: WorkflowState) -> bool {
    match from {
        WorkflowState::E1 => to == WorkflowState::E2 || to == WorkflowState::E3,
        WorkflowState::E2 => to == WorkflowState::E6 || to == WorkflowState::E3
            || to == WorkflowState::E5,
        WorkflowState::E3 => false,
        WorkflowState::E4 => to == WorkflowState::E2 || to == WorkflowState::E6,
        WorkflowState::E5 => to == WorkflowState::E2 || to == WorkflowState::E3,
        WorkflowState::E6 => to == WorkflowState::E7 || to == WorkflowState::E8
            || to == WorkflowState::E4 || to == WorkflowState::E5,
        WorkflowState::E7 => to == WorkflowState::E6 || to == WorkflowState::E8,
        WorkflowState::E8 => to == WorkflowState::E9 || to == WorkflowState::E4,
        WorkflowState::E9 => to == WorkflowState::E10 || to == WorkflowState::E8,
        WorkflowState::E10 => to == WorkflowState::E11 || to == WorkflowState::E9,
        WorkflowState::E11 => to == WorkflowState::E12 || to == WorkflowState::E10,
        WorkflowState::E12 => to == WorkflowState::E13,
        WorkflowState::E13 => to == WorkflowState::E14,
        WorkflowState::E14 => to == WorkflowState::E15,
        WorkflowState::E15 => false,
    }
}

impl WorkflowState {
    /// The adjacency list of the transition table, in its published order.
    pub open spec fn spec_allowed(self) -> Seq<WorkflowState> {
        match self {
            WorkflowState::E1 => seq![WorkflowState::E2, WorkflowState::E3],
            WorkflowState::E2 => seq![WorkflowState::E6, WorkflowState::E3, WorkflowState::E5],
            WorkflowState::E3 => Seq::empty(),
            WorkflowState::E4 => seq![WorkflowState::E2, WorkflowState::E6],
            WorkflowState::E5 => seq![WorkflowState::E2, WorkflowState::E3],
            WorkflowState::E6 => seq![
                WorkflowState::E7,
                WorkflowState::E8,
                WorkflowState::E4,
                WorkflowState::E5,
            ],
            WorkflowState::E7 => seq![WorkflowState::E6, WorkflowState::E8],
            WorkflowState::E8 => seq![WorkflowState::E9, WorkflowState::E4],
            WorkflowState::E9 => seq![WorkflowState::E10, WorkflowState::E8],
            WorkflowState::E10 => seq![WorkflowState::E11, WorkflowState::E9],
            WorkflowState::E11 => seq![WorkflowState::E12, WorkflowState::E10],
            WorkflowState::E12 => seq![WorkflowState::E13],
            WorkflowState::E13 => seq![WorkflowState::E14],
            WorkflowState::E14 => seq![WorkflowState::E15],
            WorkflowState::E15 => Seq::empty(),
        }
    }

    /// A state is terminal when it has no outgoing transitions.
    pub open spec fn spec_is_terminal(self) -> bool {
        self == WorkflowState::E3 || self == WorkflowState::E15
    }

    /// Returns the allowed next states from this state, as the static
    /// transition table lists them.
    pub fn allowed_transitions(&self) -> (r: Vec<WorkflowState>)
        ensures
            r@ == self.spec_allowed(),
    {
        match self {
            WorkflowState::E1 => vec![WorkflowState::E2, WorkflowState::E3],
            WorkflowState::E2 => vec![WorkflowState::E6, WorkflowState::E3, WorkflowState::E5],
            WorkflowState::E3 => Vec::new(),
            WorkflowState::E4 => vec![WorkflowState::E2, WorkflowState::E6],
            WorkflowState::E5 => vec![WorkflowState::E2, WorkflowState::E3],
            WorkflowState::E6 => vec![
                WorkflowState::E7,
                WorkflowState::E8,
                WorkflowState::E4,
                WorkflowState::E5,
            ],
            WorkflowState::E7 => vec![WorkflowState::E6, WorkflowState::E8],
            WorkflowState::E8 => vec![WorkflowState::E9, WorkflowState::E4],
            WorkflowState::E9 => vec![WorkflowState::E10, WorkflowState::E8],
            WorkflowState::E10 => vec![WorkflowState::E11, WorkflowState::E9],
            WorkflowState::E11 => vec![WorkflowState::E12, WorkflowState::E10],
            WorkflowState::E12 => vec![WorkflowState::E13],
            WorkflowState::E13 => vec![WorkflowState::E14],
            WorkflowState::E14 => vec![WorkflowState::E15],
            WorkflowState::E15 => Vec::new(),
        }
    }

    /// Membership test against the transition table.
    pub fn can_transition_to(&self, target: WorkflowState) -> (r: bool)
        ensures
            r == spec_can_transition(*self, target),
    {
        match self {
            WorkflowState::E1 => target == WorkflowState::E2 || target == WorkflowState::E3,
            WorkflowState::E2 => target == WorkflowState::E6 || target == WorkflowState::E3
                || target == WorkflowState::E5,
            WorkflowState::E3 => false,
            WorkflowState::E4 => target == WorkflowState::E2 || target == WorkflowState::E6,
            WorkflowState::E5 => target == WorkflowState::E2 || target == WorkflowState::E3,
            WorkflowState::E6 => target == WorkflowState::E7 || target == WorkflowState::E8
                || target == WorkflowState::E4 || target == WorkflowState::E5,
            WorkflowState::E7 => target == WorkflowState::E6 || target == WorkflowState::E8,
            WorkflowState::E8 => target == WorkflowState::E9 || target == WorkflowState::E4,
            WorkflowState::E9 => target == WorkflowState::E10 || target == WorkflowState::E8,
            WorkflowState::E10 => target == WorkflowState::E11 || target == WorkflowState::E9,
            WorkflowState::E11 => target == WorkflowState::E12 || target == WorkflowState::E10,
            WorkflowState::E12 => target == WorkflowState::E13,
            WorkflowState::E13 => target == WorkflowState::E14,
            WorkflowState::E14 => target == WorkflowState::E15,
            WorkflowState::E15 => false,
        }
    }

    /// True exactly for the two states without outgoing transitions.
    pub fn is_terminal(&self) -> (r: bool)
        ensures
            r == self.spec_is_terminal(),
    {
        match self {
            WorkflowState::E3 => true,
            WorkflowState::E15 => true,
            _ => false,
        }
    }

    /// The serialized label of the state ("E1" through "E15").
    pub fn label(&self) -> (r: &'static str)
        ensures
            r@ == self.spec_label(),
    {
        match self {
            WorkflowState::E1 => "E1",
            WorkflowState::E2 => "E2",
            WorkflowState::E3 => "E3",
            WorkflowState::E4 => "E4",
            WorkflowState::E5 => "E5",
            WorkflowState::E6 => "E6",
            WorkflowState::E7 => "E7",
            WorkflowState::E8 => "E8",
            WorkflowState::E9 => "E9",
            WorkflowState::E10 => "E10",
            WorkflowState::E11 => "E11",
            WorkflowState::E12 => "E12",
            WorkflowState::E13 => "E13",
            WorkflowState::E14 => "E14",
            WorkflowState::E15 => "E15",
        }
    }

    /// The serialized label, at the specification level.
    pub open spec fn spec_label(self) -> Seq<char> {
        match self {
            WorkflowState::E1 => "E1"@,
            WorkflowState::E2 => "E2"@,
            WorkflowState::E3 => "E3"@,
            WorkflowState::E4 => "E4"@,
            WorkflowState::E5 => "E5"@,
            WorkflowState::E6 => "E6"@,
            WorkflowState::E7 => "E7"@,
            WorkflowState::E8 => "E8"@,
            WorkflowState::E9 => "E9"@,
            WorkflowState::E10 => "E10"@,
            WorkflowState::E11 => "E11"@,
            WorkflowState::E12 => "E12"@,
            WorkflowState::E13 => "E13"@,
            WorkflowState::E14 => "E14"@,
            WorkflowState::E15 => "E15"@,
        }
    }

    /// Human-readable name of the state, for messages.
    pub fn display_name(&self) -> (r: &'static str)
        ensures
            r@ == self.spec_display_name(),
    {
        match self {
            WorkflowState::E1 => "Sin programación",
            WorkflowState::E2 => "Programado",
            WorkflowState::E3 => "Anulado",
            WorkflowState::E4 => "Repetición",
            WorkflowState::E5 => "Novedad",
            WorkflowState::E6 => "En ejecución",
            WorkflowState::E7 => "Espera ensayos",
            WorkflowState::E8 => "Procesamiento",
            WorkflowState::E9 => "Rev. Técnica",
            WorkflowState::E10 => "Rev. Coordinación",
            WorkflowState::E11 => "Rev. Dirección",
            WorkflowState::E12 => "Por enviar",
            WorkflowState::E13 => "Enviado",
            WorkflowState::E14 => "Entregado",
            WorkflowState::E15 => "Facturado",
        }
    }

    /// The human-readable name, at the specification level.
    pub open spec fn spec_display_name(self) -> Seq<char> {
        match self {
            WorkflowState::E1 => "Sin programación"@,
            WorkflowState::E2 => "Programado"@,
            WorkflowState::E3 => "Anulado"@,
            WorkflowState::E4 => "Repetición"@,
            WorkflowState::E5 => "Novedad"@,
            WorkflowState::E6 => "En ejecución"@,
            WorkflowState::E7 => "Espera ensayos"@,
            WorkflowState::E8 => "Procesamiento"@,
            WorkflowState::E9 => "Rev. Técnica"@,
            WorkflowState::E10 => "Rev. Coordinación"@,
            WorkflowState::E11 => "Rev. Dirección"@,
            WorkflowState::E12 => "Por enviar"@,
            WorkflowState::E13 => "Enviado"@,
            WorkflowState::E14 => "Entregado"@,
            WorkflowState::E15 => "Facturado"@,
        }
    }
}

impl Default for WorkflowState {
    /// The initial state of every new test record.
    fn default() -> (r: Self)
        ensures
            r == WorkflowState::E1,
    {
        WorkflowState::E1
    }
}

/// What `parse_state` accepts: a label in its canonical or all-lowercase
/// spelling (the uppercase pass of the original serialization is
/// case-insensitive only in the leading letter, since digits have no case).
pub open spec fn spec_parse_state(s: Seq<char>) -> Option<WorkflowState> {
    if s == "E1"@ || s == "e1"@ {
        Some(WorkflowState::E1)
    } else if s == "E2"@ || s == "e2"@ {
        Some(WorkflowState::E2)
    } else if s == "E3"@ || s == "e3"@ {
        Some(WorkflowState::E3)
    } else if s == "E4"@ || s == "e4"@ {
        Some(WorkflowState::E4)
    } else if s == "E5"@ || s == "e5"@ {
        Some(WorkflowState::E5)
    } else if s == "E6"@ || s == "e6"@ {
        Some(WorkflowState::E6)
    } else if s == "E7"@ || s == "e7"@ {
        Some(WorkflowState::E7)
    } else if s == "E8"@ || s == "e8"@ {
        Some(WorkflowState::E8)
    } else if s == "E9"@ || s == "e9"@ {
        Some(WorkflowState::E9)
    } else if s == "E10"@ || s == "e10"@ {
        Some(WorkflowState::E10)
    } else if s == "E11"@ || s == "e11"@ {
        Some(WorkflowState::E11)
    } else if s == "E12"@ || s == "e12"@ {
        Some(WorkflowState::E12)
    } else if s == "E13"@ || s == "e13"@ {
        Some(WorkflowState::E13)
    } else if s == "E14"@ || s == "e14"@ {
        Some(WorkflowState::E14)
    } else if s == "E15"@ || s == "e15"@ {
        Some(WorkflowState::E15)
    } else {
        None
    }
}

/// Error for a label that names no workflow state. Carries the rejected
/// input so callers can report it.
#[derive(Debug, Clone)]
pub struct WorkflowParseError(pub String);

/// Parses a state from its serialized label, failing explicitly on
/// unrecognized labels: the caller decides the fallback.
pub fn parse_state(s: &str) -> (r: Result<WorkflowState, WorkflowParseError>)
    ensures
        match r {
            Ok(st) => spec_parse_state(s@) == Some(st),
            Err(e) => spec_parse_state(s@) is None && e.0@ == s@,
        },
{
    if str_eq(s, "E1") || str_eq(s, "e1") {
        Ok(WorkflowState::E1)
    } else if str_eq(s, "E2") || str_eq(s, "e2") {
        Ok(WorkflowState::E2)
    } else if str_eq(s, "E3") || str_eq(s, "e3") {
        Ok(WorkflowState::E3)
    } else if str_eq(s, "E4") || str_eq(s, "e4") {
        Ok(WorkflowState::E4)
    } else if str_eq(s, "E5") || str_eq(s, "e5") {
        Ok(WorkflowState::E5)
    } else if str_eq(s, "E6") || str_eq(s, "e6") {
        Ok(WorkflowState::E6)
    } else if str_eq(s, "E7") || str_eq(s, "e7") {
        Ok(WorkflowState::E7)
    } else if str_eq(s, "E8") || str_eq(s, "e8") {
        Ok(WorkflowState::E8)
    } else if str_eq(s, "E9") || str_eq(s, "e9") {
        Ok(WorkflowState::E9)
    } else if str_eq(s, "E10") || str_eq(s, "e10") {
        Ok(WorkflowState::E10)
    } else if str_eq(s, "E11") || str_eq(s, "e11") {
        Ok(WorkflowState::E11)
    } else if str_eq(s, "E12") || str_eq(s, "e12") {
        Ok(WorkflowState::E12)
    } else if str_eq(s, "E13") || str_eq(s, "e13") {
        Ok(WorkflowState::E13)
    } else if str_eq(s, "E14") || str_eq(s, "e14") {
        Ok(WorkflowState::E14)
    } else if str_eq(s, "E15") || str_eq(s, "e15") {
        Ok(WorkflowState::E15)
    } else {
        Err(WorkflowParseError(s.to_owned()))
    }
}

impl core::str::FromStr for WorkflowState {
    type Err = WorkflowParseError;

    fn from_str(s: &str) -> Result<Self, Self::Err> {
        parse_state(s)
    }
}

/// Every label round-trips through the parser, in both spellings the
/// parser accepts.
pub proof fn lemma_label_parses(s: WorkflowState)
    ensures
        spec_parse_state(s.spec_label()) == Some(s),
{
    reveal_strlit("E1");
    reveal_strlit("E2");
    reveal_strlit("E3");
    reveal_strlit("E4");
    reveal_strlit("E5");
    reveal_strlit("E6");
    reveal_strlit("E7");
    reveal_strlit("E8");
    reveal_strlit("E9");
    reveal_strlit("E10");
    reveal_strlit("E11");
    reveal_strlit("E12");
    reveal_strlit("E13");
    reveal_strlit("E14");
    reveal_strlit("E15");
    reveal_strlit("e1");
    reveal_strlit("e2");
    reveal_strlit("e3");
    reveal_strlit("e4");
    reveal_strlit("e5");
    reveal_strlit("e6");
    reveal_strlit("e7");
    reveal_strlit("e8");
    reveal_strlit("e9");
    reveal_strlit("e10");
    reveal_strlit("e11");
    reveal_strlit("e12");
    reveal_strlit("e13");
    reveal_strlit("e14");
    reveal_strlit("e15");
    assert("E1"@ =~= seq!['E', '1']);
    assert("E2"@ =~= seq!['E', '2']);
    assert("E3"@ =~= seq!['E', '3']);
    assert("E4"@ =~= seq!['E', '4']);
    assert("E5"@ =~= seq!['E', '5']);
    assert("E6"@ =~= seq!['E', '6']);
    assert("E7"@ =~= seq!['E', '7']);
    assert("E8"@ =~= seq!['E', '8']);
    assert("E9"@ =~= seq!['E', '9']);
    assert("E10"@ =~= seq!['E', '1', '0']);
    assert("E11"@ =~= seq!['E', '1', '1']);
    assert("E12"@ =~= seq!['E', '1', '2']);
    assert("E13"@ =~= seq!['E', '1', '3']);
    assert("E14"@ =~= seq!['E', '1', '4']);
    assert("E15"@ =~= seq!['E', '1', '5']);
    assert("e1"@ =~= seq!['e', '1']);
    assert("e2"@ =~= seq!['e', '2']);
    assert("e3"@ =~= seq!['e', '3']);
    assert("e4"@ =~= seq!['e', '4']);
    assert("e5"@ =~= seq!['e', '5']);
    assert("e6"@ =~= seq!['e', '6']);
    assert("e7"@ =~= seq!['e', '7']);
    assert("e8"@ =~= seq!['e', '8']);
    assert("e9"@ =~= seq!['e', '9']);
    assert("e10"@ =~= seq!['e', '1', '0']);
    assert("e11"@ =~= seq!['e', '1', '1']);
    assert("e12"@ =~= seq!['e', '1', '2']);
    assert("e13"@ =~= seq!['e', '1', '3']);
    assert("e14"@ =~= seq!['e', '1', '4']);
    assert("e15"@ =~= seq!['e', '1', '5']);
    match s {
        WorkflowState::E1 => assert(spec_parse_state(s.spec_label()) == Some(WorkflowState::E1)),
        WorkflowState::E2 => assert(spec_parse_state(s.spec_label()) == Some(WorkflowState::E2)),
        WorkflowState::E3 => assert(spec_parse_state(s.spec_label()) == Some(WorkflowState::E3)),
        WorkflowState::E4 => assert(spec_parse_state(s.spec_label()) == Some(WorkflowState::E4)),
        WorkflowState::E5 => assert(spec_parse_state(s.spec_label()) == Some(WorkflowState::E5)),
        WorkflowState::E6 => assert(spec_parse_state(s.spec_label()) == Some(WorkflowState::E6)),
        WorkflowState::E7 => assert(spec_parse_state(s.spec_label()) == Some(WorkflowState::E7)),
        WorkflowState::E8 => assert(spec_parse_state(s.spec_label()) == Some(WorkflowState::E8)),
        WorkflowState::E9 => assert(spec_parse_state(s.spec_label()) == Some(WorkflowState::E9)),
        WorkflowState::E10 => assert(spec_parse_state(s.spec_label()) == Some(WorkflowState::E10)),
        WorkflowState::E11 => assert(spec_parse_state(s.spec_label()) == Some(WorkflowState::E11)),
        WorkflowState::E12 => assert(spec_parse_state(s.spec_label()) == Some(WorkflowState::E12)),
        WorkflowState::E13 => assert(spec_parse_state(s.spec_label()) == Some(WorkflowState::E13)),
        WorkflowState::E14 => assert(spec_parse_state(s.spec_label()) == Some(WorkflowState::E14)),
        WorkflowState::E15 => assert(spec_parse_state(s.spec_label()) == Some(WorkflowState::E15)),
    }
}

/// Law: the two terminal states have no outgoing transitions — their
/// adjacency list is empty and the transition test denies every target.
pub proof fn lemma_terminal_states_closed(s: WorkflowState, t: WorkflowState)
    requires
        s.spec_is_terminal(),
    ensures
        !spec_can_transition(s, t),
        s.spec_allowed() == Seq::<WorkflowState>::empty(),
{
}

/// Law: terminality is exactly the absence of outgoing transitions; the
/// adjacency list agrees with the transition test in both directions.
pub proof fn lemma_terminal_iff_closed(s: WorkflowState)
    ensures
        s.spec_is_terminal() <==> (forall|t: WorkflowState| !spec_can_transition(s, t)),
{
    if !s.spec_is_terminal() {
        match s {
            WorkflowState::E1 => assert(spec_can_transition(s, WorkflowState::E2)),
            WorkflowState::E2 => assert(spec_can_transition(s, WorkflowState::E6)),
            WorkflowState::E4 => assert(spec_can_transition(s, WorkflowState::E2)),
            WorkflowState::E5 => assert(spec_can_transition(s, WorkflowState::E2)),
            WorkflowState::E6 => assert(spec_can_transition(s, WorkflowState::E7)),
            WorkflowState::E7 => assert(spec_can_transition(s, WorkflowState::E6)),
            WorkflowState::E8 => assert(spec_can_transition(s, WorkflowState::E9)),
            WorkflowState::E9 => assert(spec_can_transition(s, WorkflowState::E10)),
            WorkflowState::E10 => assert(spec_can_transition(s, WorkflowState::E11)),
            WorkflowState::E11 => assert(spec_can_transition(s, WorkflowState::E12)),
            WorkflowState::E12 => assert(spec_can_transition(s, WorkflowState::E13)),
            WorkflowState::E13 => assert(spec_can_transition(s, WorkflowState::E14)),
            WorkflowState::E14 => assert(spec_can_transition(s, WorkflowState::E15)),
            _ => assert(false),
        }
    }
}

/// The adjacency list and the transition test describe the same table.
pub proof fn lemma_allowed_matches_transitions(s: WorkflowState, t: WorkflowState)
    ensures
        s.spec_allowed().contains(t) <==> spec_can_transition(s, t),
{
    if spec_can_transition(s, t) {
        match s {
            WorkflowState::E1 => {
                if t == WorkflowState::E2 {
                    assert(s.spec_allowed()[0] == t);
                } else {
                    assert(s.spec_allowed()[1] == t);
                }
            },
            WorkflowState::E2 => {
                if t == WorkflowState::E6 {
                    assert(s.spec_allowed()[0] == t);
                } else if t == WorkflowState::E3 {
                    assert(s.spec_allowed()[1] == t);
                } else {
                    assert(s.spec_allowed()[2] == t);
                }
            },
            WorkflowState::E4 => {
                if t == WorkflowState::E2 {
                    assert(s.spec_allowed()[0] == t);
                } else {
                    assert(s.spec_allowed()[1] == t);
                }
            },
            WorkflowState::E5 => {
                if t == WorkflowState::E2 {
                    assert(s.spec_allowed()[0] == t);
                } else {
                    assert(s.spec_allowed()[1] == t);
                }
            },
            WorkflowState::E6 => {
                if t == WorkflowState::E7 {
                    assert(s.spec_allowed()[0] == t);
                } else if t == WorkflowState::E8 {
                    assert(s.spec_allowed()[1] == t);
                } else if t == WorkflowState::E4 {
                    assert(s.spec_allowed()[2] == t);
                } else {
                    assert(s.spec_allowed()[3] == t);
                }
            },
            WorkflowState::E7 => {
                if t == WorkflowState::E6 {
                    assert(s.spec_allowed()[0] == t);
                } else {
                    assert(s.spec_allowed()[1] == t);
                }
            },
            WorkflowState::E8 => {
                if t == WorkflowState::E9 {
                    assert(s.spec_allowed()[0] == t);
                } else {
                    assert(s.spec_allowed()[1] == t);
                }
            },
            WorkflowState::E9 => {
                if t == WorkflowState::E10 {
                    assert(s.spec_allowed()[0] == t);
                } else {
                    assert(s.spec_allowed()[1] == t);
                }
            },
            WorkflowState::E10 => {
                if t == WorkflowState::E11 {
                    assert(s.spec_allowed()[0] == t);
                } else {
                    assert(s.spec_allowed()[1] == t);
                }
            },
            WorkflowState::E11 => {
                if t == WorkflowState::E12 {
                    assert(s.spec_allowed()[0] == t);
                } else {
                    assert(s.spec_allowed()[1] == t);
                }
            },
            WorkflowState::E12 => assert(s.spec_allowed()[0] == t),
            WorkflowState::E13 => assert(s.spec_allowed()[0] == t),
            WorkflowState::E14 => assert(s.spec_allowed()[0] == t),
            _ => assert(false),
        }
    }
}

/// Whether `to` can be reached from `from` in exactly `n` steps of the
/// transition table.
pub open spec fn spec_reachable_in(from: WorkflowState, to: WorkflowState, n: nat) -> bool
    decreases n,
{
    if n == 0 {
        from == to
    } else {
        exists|mid: WorkflowState|
            spec_can_transition(from, mid) && spec_reachable_in(mid, to, (n - 1) as nat)
    }
}

/// Law: no state is reachable from a terminal state by any positive number
/// of steps — the table itself gives terminal states zero outgoing edges.
pub proof fn lemma_nothing_reachable_from_terminal(s: WorkflowState, t: WorkflowState, n: nat)
    requires
        s.spec_is_terminal(),
        n > 0,
    ensures
        !spec_reachable_in(s, t, n),
{
}

} // verus!
