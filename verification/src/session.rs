//! One turn of a session: what a key event does to the state, and what the
//! host of the session has to do next.

use crate::cli::{Invocation, InvocationView};
use crate::controller::messages::{handle_key_event, message_for, KeyEvent};
use crate::controller::{update, updated};
use crate::model::{Model, ModelView};
use crate::parsing::{convert_to_cli, invocation_tokens};
use vstd::prelude::*;

verus! {

/// What the host of a session does after a turn.
#[derive(Debug, PartialEq, Eq)]
pub enum Step {
    /// Draw the state and wait for the next event.
    Continue,
    /// End the session and start the program.
    Submit(Invocation),
    /// End the session.
    Exit,
}

/// A step as plain values.
pub enum StepView {
    Continue,
    Submit(InvocationView),
    Exit,
}

impl View for Step {
    type V = StepView;

    open spec fn view(&self) -> StepView {
        match self {
            Step::Continue => StepView::Continue,
            Step::Submit(command) => StepView::Submit(command@),
            Step::Exit => StepView::Exit,
        }
    }
}

/// The state after an event: that after the message which the event stands
/// for, or the state itself where it stands for none.
pub open spec fn after_event(model: ModelView, event: Option<KeyEvent>) -> ModelView {
    match event {
        Some(key) => match message_for(key, model.current_section) {
            Some(message) => updated(model, message),
            None => model,
        },
        None => model,
    }
}

/// What a state asks of the host: to start the program where submit is
/// requested, else to end the session where exit is requested, else to go
/// on.
pub open spec fn step_for(model: ModelView) -> StepView {
    if model.run {
        StepView::Submit(
            InvocationView {
                program: model.parameters.cli_name,
                arguments: invocation_tokens(model.parameters),
            },
        )
    } else if model.exit {
        StepView::Exit
    } else {
        StepView::Continue
    }
}

/// Takes one turn: applies the event, if there is one, and says what the
/// host does next.
pub fn step(model: &mut Model, event: Option<KeyEvent>) -> (next: Step)
    ensures
        final(model)@ == after_event(old(model)@, event),
        next@ == step_for(final(model)@),
        old(model)@.wf() ==> final(model)@.wf(),
{
    match event {
        Some(key) => match handle_key_event(key, model) {
            Some(message) => update(model, message),
            None => (),
        },
        None => (),
    }
    if model.run {
        Step::Submit(convert_to_cli(&model.parameters))
    } else if model.exit {
        Step::Exit
    } else {
        Step::Continue
    }
}

} // verus!
