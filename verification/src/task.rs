//! What the periodic tasks ask the orchestrator to do.

use vstd::prelude::*;

verus! {

/// A command on the fleet.
#[derive(Debug)]
pub enum TaskAction {
    /// Start an instance of the template of that name.
    StartInstance(String),
    /// Remove the instance of that name.
    RemoveInstance(String),
}

/// A command as plain values.
pub enum ActionView {
    StartInstance(Seq<char>),
    RemoveInstance(Seq<char>),
}

impl View for TaskAction {
    type V = ActionView;

    open spec fn view(&self) -> ActionView {
        match self {
            TaskAction::StartInstance(template) => ActionView::StartInstance(template@),
            TaskAction::RemoveInstance(name) => ActionView::RemoveInstance(name@),
        }
    }
}

/// The command that an optional action stands for.
pub open spec fn action_view(action: Option<TaskAction>) -> Option<ActionView> {
    match action {
        Some(a) => Some(a@),
        None => None,
    }
}

} // verus!
