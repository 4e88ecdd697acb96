//! Gating of workflow-state changes, and the document side effect of the
//! transition into the report-approved state.
//!
//! Every state mutation must pass the transition table before it is
//! persisted; a denied request is rejected naming the current state, the
//! requested state and the allowed set — never silently dropped. A
//! transition into the report-approved state additionally asks for a
//! document to be rendered from the test's working sheet, when the record
//! carries both a working-sheet id and a resolved folder id; a missing id
//! skips the document without blocking the transition.

use vstd::prelude::*;
use vstd::string::*;
use crate::ensayo::{Ensayo, EnsayoV};
use crate::workflow::{spec_can_transition, WorkflowState};

verus! {

/// A rejected state change: the current state, the requested state, and
/// the allowed set as the table lists it.
#[derive(Debug)]
pub struct TransitionDenied {
    pub from: WorkflowState,
    pub to: WorkflowState,
    pub allowed: Vec<WorkflowState>,
}

/// The document the side effect renders: the working sheet to export, the
/// name of the file, and the folder that receives it.
#[derive(Debug, Clone)]
pub struct DocumentRequest {
    pub sheet_id: String,
    pub pdf_name: String,
    pub folder_id: String,
}

/// An allowed state change: the state to persist, and the document to
/// generate afterwards, if the transition and the record ask for one.
#[derive(Debug)]
pub struct StatusPlan {
    pub new_state: WorkflowState,
    pub document: Option<DocumentRequest>,
}

/// Whether a transition into this state triggers document generation for
/// this record: it is the entry into the report-approved state, and the
/// record carries both a working-sheet id and a resolved folder id.
pub open spec fn spec_document_needed(e: EnsayoV, to: WorkflowState) -> bool {
    to == WorkflowState::E12 && e.sheet_id is Some && e.perforacion_folder_id is Some
}

/// Decides a requested state change for a test record against the
/// transition table. An allowed change yields the plan to persist; a
/// denied change yields the rejection, naming current state, requested
/// state and the allowed set. The transition never silently degrades: it
/// is allowed exactly when the table allows it.
pub fn plan_status_update(current: &Ensayo, requested: WorkflowState) -> (r: Result<
    StatusPlan,
    TransitionDenied,
>)
    ensures
        r is Ok <==> spec_can_transition(current@.workflow_state, requested),
        match r {
            Ok(plan) => {
                &&& plan.new_state == requested
                &&& match plan.document {
                    Some(d) => spec_document_needed(current@, requested) && Some(d.sheet_id@)
                        == current@.sheet_id && Some(d.folder_id@)
                        == current@.perforacion_folder_id && d.pdf_name@ == current@.codigo
                        + ".pdf"@,
                    None => !spec_document_needed(current@, requested),
                }
            },
            Err(denied) => {
                &&& denied.from == current@.workflow_state
                &&& denied.to == requested
                &&& denied.allowed@ == current@.workflow_state.spec_allowed()
            },
        },
{
    if !current.workflow_state.can_transition_to(requested) {
        return Err(
            TransitionDenied {
                from: current.workflow_state,
                to: requested,
                allowed: current.workflow_state.allowed_transitions(),
            },
        );
    }
    let document = if matches!(requested, WorkflowState::E12) {
        match (&current.sheet_id, &current.perforacion_folder_id) {
            (Some(sheet_id), Some(folder_id)) => {
                let mut pdf_name = current.codigo.clone();
                pdf_name.append(".pdf");
                Some(
                    DocumentRequest {
                        sheet_id: sheet_id.clone(),
                        pdf_name,
                        folder_id: folder_id.clone(),
                    },
                )
            },
            _ => None,
        }
    } else {
        None
    };
    Ok(StatusPlan { new_state: requested, document })
}

/// The allowed set rendered as labels separated by commas.
pub open spec fn spec_label_list(states: Seq<WorkflowState>) -> Seq<char>
    decreases states.len(),
{
    if states.len() == 0 {
        Seq::empty()
    } else if states.len() == 1 {
        states[0].spec_label()
    } else {
        states[0].spec_label() + ", "@ + spec_label_list(states.skip(1))
    }
}

/// Unrolls the label list of a prefix by one more state.
proof fn lemma_label_list_take_step(states: Seq<WorkflowState>, i: int)
    requires
        0 <= i < states.len(),
    ensures
        i == 0 ==> spec_label_list(states.take(1)) == states[0].spec_label(),
        i > 0 ==> spec_label_list(states.take(i + 1)) == spec_label_list(states.take(i)) + ", "@
            + states[i].spec_label(),
    decreases i,
{
    if i == 0 {
        assert(states.take(1).len() == 1);
        assert(states.take(1)[0] == states[0]);
    } else {
        let a = states.take(i + 1);
        let b = states.take(i);
        assert(a.len() == i + 1 && a.len() >= 2);
        assert(a.skip(1) =~= states.skip(1).take(i));
        assert(b.skip(1) =~= states.skip(1).take(i - 1));
        assert(a[0] == states[0] && b[0] == states[0]);
        lemma_label_list_take_step(states.skip(1), i - 1);
        if i == 1 {
            assert(spec_label_list(a) == a[0].spec_label() + ", "@ + spec_label_list(a.skip(1)));
            assert(spec_label_list(states.skip(1).take(1)) == states.skip(1)[0].spec_label());
            assert(b.len() == 1);
            assert(spec_label_list(b) == states[0].spec_label());
        } else {
            assert(spec_label_list(a) == a[0].spec_label() + ", "@ + spec_label_list(a.skip(1)));
            assert(spec_label_list(b) == b[0].spec_label() + ", "@ + spec_label_list(b.skip(1)));
            assert(spec_label_list(states.skip(1).take(i)) == spec_label_list(
                states.skip(1).take(i - 1),
            ) + ", "@ + states.skip(1)[i - 1].spec_label());
            assert(states.skip(1)[i - 1] == states[i]);
            assert(spec_label_list(a) =~= spec_label_list(b) + ", "@ + states[i].spec_label());
        }
    }
}

/// Renders the labels of these states, separated by commas.
pub fn label_list(states: &Vec<WorkflowState>) -> (r: String)
    ensures
        r@ == spec_label_list(states@),
{
    let mut out = String::new();
    let mut i: usize = 0;
    while i < states.len()
        invariant
            i <= states@.len(),
            out@ == spec_label_list(states@.take(i as int)),
        decreases states@.len() - i,
    {
        if i > 0 {
            out.append(", ");
        }
        out.append(states[i].label());
        proof {
            lemma_label_list_take_step(states@, i as int);
        }
        i = i + 1;
    }
    proof {
        assert(states@.take(states@.len() as int) =~= states@);
    }
    out
}

impl TransitionDenied {
    /// What the rejection says.
    pub open spec fn spec_message(&self) -> Seq<char> {
        "Transición inválida de "@ + self.from.spec_label() + " ("@
            + self.from.spec_display_name() + ") a "@ + self.to.spec_label() + " ("@
            + self.to.spec_display_name() + "). Permitidas: "@ + spec_label_list(self.allowed@)
    }

    /// Renders the rejection: the current state, the requested state and
    /// the allowed set, by label and name.
    pub fn message(&self) -> (r: String)
        ensures
            r@ == self.spec_message(),
    {
        let mut s = "Transición inválida de ".to_owned();
        s.append(self.from.label());
        s.append(" (");
        s.append(self.from.display_name());
        s.append(") a ");
        s.append(self.to.label());
        s.append(" (");
        s.append(self.to.display_name());
        s.append("). Permitidas: ");
        let list = label_list(&self.allowed);
        s.append(list.as_str());
        proof {
            assert(s@ =~= self.spec_message());
        }
        s
    }
}

/// The browser link of a working sheet.
pub fn get_view_url(file_id: &str) -> (r: String)
    ensures
        r@ == "https://docs.google.com/spreadsheets/d/"@ + file_id@ + "/edit"@,
{
    let mut s = "https://docs.google.com/spreadsheets/d/".to_owned();
    s.append(file_id);
    s.append("/edit");
    proof {
        assert(s@ =~= "https://docs.google.com/spreadsheets/d/"@ + file_id@ + "/edit"@);
    }
    s
}

/// The browser link of a generated document.
pub fn get_pdf_view_url(file_id: &str) -> (r: String)
    ensures
        r@ == "https://drive.google.com/file/d/"@ + file_id@ + "/view"@,
{
    let mut s = "https://drive.google.com/file/d/".to_owned();
    s.append(file_id);
    s.append("/view");
    proof {
        assert(s@ =~= "https://drive.google.com/file/d/"@ + file_id@ + "/view"@);
    }
    s
}

/// The export link that renders a working sheet as a document.
pub fn get_pdf_export_url(file_id: &str) -> (r: String)
    ensures
        r@ == "https://docs.google.com/spreadsheets/d/"@ + file_id@ + "/export?format=pdf"@,
{
    let mut s = "https://docs.google.com/spreadsheets/d/".to_owned();
    s.append(file_id);
    s.append("/export?format=pdf");
    proof {
        assert(s@ =~= "https://docs.google.com/spreadsheets/d/"@ + file_id@
            + "/export?format=pdf"@);
    }
    s
}

} // verus!
