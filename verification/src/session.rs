//! The interactive session: what the control loop does with each line that
//! the user types.
//!
//! The loop itself lives with the caller. It prompts, reads a line, asks
//! [`interpret`] what to do, and goes on until the action is [`Action::Quit`].

use vstd::prelude::*;
use vstd::string::StringExecFns;
use vstd::utf8::encode_utf8;
use crate::decimal::{decimal, to_decimal};
use crate::engine::lemma_accepted_has_no_zero_byte;
use crate::text::{ascii_lowercase, exit_command, is_exit_command, trim, trimmed};
use crate::validator::{admissible_at, is_valid_arithmetic, valid_expression};

verus! {

/// The states of the control loop.
#[derive(Clone, Copy, Debug, PartialEq, Eq, Structural)]
pub enum LoopState {
    /// Waiting for the next line. The loop starts here.
    Prompting,
    /// The user has asked to leave. Nothing follows.
    Terminated,
}

/// What the loop does with one line of input.
#[derive(Clone, Copy, Debug, PartialEq, Eq)]
pub enum Action<'a> {
    /// The line is the exit word: end the loop.
    Quit,
    /// The line is no well-formed expression: say so and prompt again.
    Reject,
    /// The line is a well-formed expression: hand this text to the engine,
    /// print what it returns and prompt again.
    Evaluate(&'a str),
}

/// An [`Action`] as contracts see it.
pub ghost enum ActionView {
    Quit,
    Reject,
    Evaluate(Seq<char>),
}

impl<'a> View for Action<'a> {
    type V = ActionView;

    open spec fn view(&self) -> ActionView {
        match *self {
            Action::Quit => ActionView::Quit,
            Action::Reject => ActionView::Reject,
            Action::Evaluate(text) => ActionView::Evaluate(text@),
        }
    }
}

/// The action that a line calls for once it is trimmed to `text`.
///
/// The exit word is recognised first; the validator is asked only about
/// other texts.
pub open spec fn action_for(text: Seq<char>) -> ActionView {
    if exit_command(text) {
        ActionView::Quit
    } else if valid_expression(text) {
        ActionView::Evaluate(text)
    } else {
        ActionView::Reject
    }
}

/// The state that the loop is in after `action`.
pub open spec fn state_after(action: ActionView) -> LoopState {
    if action is Quit {
        LoopState::Terminated
    } else {
        LoopState::Prompting
    }
}

impl<'a> Action<'a> {
    /// The state of the loop once this action is carried out.
    pub fn next_state(&self) -> (state: LoopState)
        ensures
            state == state_after(self@),
    {
        match self {
            Action::Quit => LoopState::Terminated,
            _ => LoopState::Prompting,
        }
    }
}

/// Decides what to do with a line that is already trimmed.
pub fn decide(text: &str) -> (action: Action<'_>)
    ensures
        action@ == action_for(text@),
{
    if is_exit_command(text) {
        Action::Quit
    } else if is_valid_arithmetic(text) {
        Action::Evaluate(text)
    } else {
        Action::Reject
    }
}

/// Decides what to do with a line as it was typed: trims it, then decides as
/// [`decide`] does.
pub fn interpret(line: &str) -> (action: Action<'_>)
    ensures
        action@ == action_for(trimmed(line@)),
{
    decide(trim(line))
}

/// The loop ends on the exit word and on nothing else.
pub proof fn lemma_only_exit_word_terminates(text: Seq<char>)
    ensures
        state_after(action_for(text)) == LoopState::Terminated <==> exit_command(text),
{
}

/// The exit word is no well-formed expression, so asking for it first takes
/// no expression away from the validator.
pub proof fn lemma_exit_word_is_no_expression(text: Seq<char>)
    requires
        exit_command(text),
    ensures
        !valid_expression(text),
{
    assert(ascii_lowercase(text[0]) == 'q');
    assert(!admissible_at(text, 0));
}

/// Only accepted expressions reach the engine: the text of an
/// [`Action::Evaluate`] is the trimmed line itself, it is well formed, and it
/// holds no zero byte.
pub proof fn lemma_engine_sees_accepted_text(text: Seq<char>)
    ensures
        action_for(text) matches ActionView::Evaluate(e) ==> {
            &&& e == text
            &&& valid_expression(e)
            &&& !encode_utf8(e).contains(0u8)
        },
{
    if action_for(text) is Evaluate {
        lemma_accepted_has_no_zero_byte(text);
    }
}

/// The text that asks for the next line. It ends without a line break.
pub fn prompt() -> (text: &'static str)
    ensures
        text@ == "Enter an arithmetic expression (or type 'quit' to exit): "@,
{
    "Enter an arithmetic expression (or type 'quit' to exit): "
}

/// The line that answers a rejected expression.
pub fn rejection_message() -> (text: &'static str)
    ensures
        text@ == "Invalid expression. Please try again."@,
{
    "Invalid expression. Please try again."
}

/// The line that reports `value`, the engine's result.
pub fn result_message(value: i64) -> (text: String)
    ensures
        text@ == "Result: "@ + decimal(value as int),
{
    let mut text = String::from_str("Result: ");
    text.append(to_decimal(value).as_str());
    text
}

} // verus!
