//! What a task asks of the system it runs on, and what it is answered.

use crate::command::{CommandLine, CommandLineView};
use vstd::prelude::*;

verus! {

/// The next thing to do for a task.
#[derive(Debug)]
pub enum Action {
    /// Run the command. The answer is its standard output, nothing if it could not be run.
    Capture(CommandLine),
    /// Run the command, read the file that it writes and remove it. The answer is what the file
    /// held, the empty text if it could not be opened, nothing if the command could not be run.
    Report(CommandLine, String),
    /// Read each text as an address. The answer is the canonical texts of all; a task with a text
    /// that is no address cannot go on.
    Resolve(Vec<String>),
    /// Read each text as an address. The answer is the canonical text of each that is one.
    TryResolve(Vec<String>),
    /// Nothing is left to do.
    Finish,
}

/// The contents of an [`Action`].
#[verifier::ext_equal]
pub enum ActionView {
    Capture(CommandLineView),
    Report(CommandLineView, Seq<char>),
    Resolve(Seq<Seq<char>>),
    TryResolve(Seq<Seq<char>>),
    Finish,
}

impl View for Action {
    type V = ActionView;

    open spec fn view(&self) -> ActionView {
        match self {
            Action::Capture(command) => ActionView::Capture(command@),
            Action::Report(command, file) => ActionView::Report(command@, file@),
            Action::Resolve(texts) => ActionView::Resolve(texts.deep_view()),
            Action::TryResolve(texts) => ActionView::TryResolve(texts.deep_view()),
            Action::Finish => ActionView::Finish,
        }
    }
}

/// What came of an [`Action`].
#[derive(Debug)]
pub enum Answer {
    /// The answer to `Capture` and `Report`.
    Output(Option<String>),
    /// The answer to `Resolve`.
    Addresses(Vec<String>),
    /// The answer to `TryResolve`.
    Candidates(Vec<Option<String>>),
}

/// The contents of an [`Answer`].
#[verifier::ext_equal]
pub enum AnswerView {
    Output(Option<Seq<char>>),
    Addresses(Seq<Seq<char>>),
    Candidates(Seq<Option<Seq<char>>>),
}

impl View for Answer {
    type V = AnswerView;

    open spec fn view(&self) -> AnswerView {
        match self {
            Answer::Output(text) => AnswerView::Output(text.deep_view()),
            Answer::Addresses(texts) => AnswerView::Addresses(texts.deep_view()),
            Answer::Candidates(texts) => AnswerView::Candidates(texts.deep_view()),
        }
    }
}

/// A copy of some texts.
pub(crate) fn copy_texts(texts: &Vec<String>) -> (result: Vec<String>)
    ensures
        result.deep_view() == texts.deep_view(),
{
    let result = texts.clone();
    assert(result.deep_view() =~= texts.deep_view());
    result
}

/// All of an action is among its contents.
pub proof fn law_action_contents(command: CommandLine, file: String, texts: Vec<String>)
    ensures
        Action::Capture(command)@ == ActionView::Capture(command@),
        Action::Report(command, file)@ == ActionView::Report(command@, file@),
        Action::Resolve(texts)@ == ActionView::Resolve(
            texts@.map_values(|text: String| text@),
        ),
        Action::TryResolve(texts)@ == ActionView::TryResolve(
            texts@.map_values(|text: String| text@),
        ),
        Action::Finish@ == ActionView::Finish,
{
    assert(texts.deep_view() =~= texts@.map_values(|text: String| text@));
}

/// All of an answer is among its contents.
pub proof fn law_answer_contents(text: String, texts: Vec<String>, candidates: Vec<Option<String>>)
    ensures
        Answer::Output(Some(text))@ == AnswerView::Output(Some(text@)),
        Answer::Output(None)@ == AnswerView::Output(None),
        Answer::Addresses(texts)@ == AnswerView::Addresses(
            texts@.map_values(|text: String| text@),
        ),
        Answer::Candidates(candidates)@ matches AnswerView::Candidates(all) && all.len()
            == candidates@.len() && (forall|i: int|
            0 <= i < all.len() ==> #[trigger] all[i] == match candidates@[i] {
                Some(text) => Some(text@),
                None => None,
            }),
{
    assert(texts.deep_view() =~= texts@.map_values(|text: String| text@));
}

} // verus!
