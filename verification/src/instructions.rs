//! What the chat model answers to a user prompt.

use vstd::prelude::*;
use crate::lang::ProgItem;

verus! {

/// The prompt was understood: what to change, and where.
#[derive(Debug)]
pub struct GoodInstructions {
    /// The kind of item to change.
    pub item: ProgItem,
    /// How the prompt was understood, in words for the user.
    pub answer: String,
    /// The prompt as the user wrote it.
    pub user_message: String,
    /// The folder that the user named, if any.
    pub folder: Option<String>,
}

/// The prompt asks for something that cannot be done.
#[derive(Debug)]
pub struct UserError {
    /// The prompt as the user wrote it.
    pub user_message: String,
    /// Why the prompt cannot be followed, and what can be asked for.
    pub answer: String,
}

/// The prompt leaves open what to change.
#[derive(Debug)]
pub struct ClarificationNeeded {
    /// The kind of item, as far as the prompt names it.
    pub item: Option<ProgItem>,
    /// The folder that the user named, if any.
    pub folder: Option<String>,
    /// The question to put to the user.
    pub answer: String,
    /// The prompt as the user wrote it.
    pub user_message: String,
    pub clarification_needed: bool,
}

/// The answers that the chat model can give to a prompt.
#[derive(Debug)]
pub enum InitialInstruction {
    GoodInstructions(GoodInstructions),
    UserError(UserError),
    ClarificationNeeded(ClarificationNeeded),
    Quit,
    TooManyTries,
}

impl Clone for GoodInstructions {
    fn clone(&self) -> (copy: Self)
        ensures
            copy == *self,
    {
        GoodInstructions {
            item: self.item,
            answer: self.answer.clone(),
            user_message: self.user_message.clone(),
            folder: clone_text(&self.folder),
        }
    }
}

impl Clone for UserError {
    fn clone(&self) -> (copy: Self)
        ensures
            copy == *self,
    {
        UserError { user_message: self.user_message.clone(), answer: self.answer.clone() }
    }
}

impl Clone for ClarificationNeeded {
    fn clone(&self) -> (copy: Self)
        ensures
            copy == *self,
    {
        ClarificationNeeded {
            item: self.item,
            folder: clone_text(&self.folder),
            answer: self.answer.clone(),
            user_message: self.user_message.clone(),
            clarification_needed: self.clarification_needed,
        }
    }
}

impl Clone for InitialInstruction {
    fn clone(&self) -> (copy: Self)
        ensures
            copy == *self,
    {
        match self {
            InitialInstruction::GoodInstructions(good) => InitialInstruction::GoodInstructions(
                good.clone(),
            ),
            InitialInstruction::UserError(error) => InitialInstruction::UserError(error.clone()),
            InitialInstruction::ClarificationNeeded(question) =>
                InitialInstruction::ClarificationNeeded(question.clone()),
            InitialInstruction::Quit => InitialInstruction::Quit,
            InitialInstruction::TooManyTries => InitialInstruction::TooManyTries,
        }
    }
}

/// A copy of a text that may be missing.
fn clone_text(text: &Option<String>) -> (copy: Option<String>)
    ensures
        copy == *text,
{
    match text {
        Some(words) => Some(words.clone()),
        None => None,
    }
}

} // verus!
