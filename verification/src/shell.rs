//! The menu shell as a state machine: what each line of input leads to.
//!
//! The shell shows a prompt, takes one line, and from the two decides what
//! comes next: another prompt, a request to the store, or the end. Showing
//! prompts, reading lines and printing answers is left to the caller.

use vstd::prelude::*;
use crate::input::{flag_of, number_of, parse_flag, parse_number, same_text};
use crate::todo::title_view;

verus! {

/// What the shell has asked for and is waiting to read.
#[derive(Debug, Clone, PartialEq, Eq)]
pub enum Prompt {
    /// The menu of six choices.
    Menu,
    /// The title of the record to create.
    CreateTitle,
    /// The id of the record to read.
    ReadId,
    /// The id of the record to update.
    UpdateId,
    /// The new title of the record to update; an empty answer keeps the old.
    UpdateTitle { id: usize },
    /// The new completed flag of the record to update; an empty answer keeps
    /// the old.
    UpdateCompleted { id: usize, title: Option<String> },
    /// The id of the record to delete.
    DeleteId,
}

/// A request to the store, complete with its fields.
#[derive(Debug, Clone, PartialEq, Eq)]
pub enum Command {
    Create { title: String },
    Read { id: usize },
    Update { id: usize, title: Option<String>, completed: Option<bool> },
    Delete { id: usize },
    List,
}

/// A field that the user types and that has a fixed form.
#[derive(Debug, Clone, Copy, PartialEq, Eq)]
pub enum Field {
    /// An id: an unsigned number.
    Id,
    /// A completed flag: `true` or `false`.
    Completed,
}

/// What a line of input leads to.
#[derive(Debug, Clone, PartialEq, Eq)]
pub enum Step {
    /// More is needed: show this prompt next.
    Ask(Prompt),
    /// The request is complete: carry it out, then show the menu again.
    Run(Command),
    /// The line is none of the menu's choices: say so, then show the menu
    /// again.
    Invalid,
    /// The user chose to leave.
    Exit,
    /// The line does not have the form of the field that was asked for.
    Malformed(Field),
}

/// The value of a `Prompt`.
pub enum PromptView {
    Menu,
    CreateTitle,
    ReadId,
    UpdateId,
    UpdateTitle { id: nat },
    UpdateCompleted { id: nat, new_title: Option<Seq<char>> },
    DeleteId,
}

/// The value of a `Command`.
pub enum CommandView {
    Create { title: Seq<char> },
    Read { id: nat },
    Update { id: nat, new_title: Option<Seq<char>>, new_completed: Option<bool> },
    Delete { id: nat },
    List,
}

/// The value of a `Step`.
pub enum StepView {
    Ask(PromptView),
    Run(CommandView),
    Invalid,
    Exit,
    Malformed(Field),
}

impl View for Prompt {
    type V = PromptView;

    open spec fn view(&self) -> PromptView {
        match *self {
            Prompt::Menu => PromptView::Menu,
            Prompt::CreateTitle => PromptView::CreateTitle,
            Prompt::ReadId => PromptView::ReadId,
            Prompt::UpdateId => PromptView::UpdateId,
            Prompt::UpdateTitle { id } => PromptView::UpdateTitle { id: id as nat },
            Prompt::UpdateCompleted { id, title } => PromptView::UpdateCompleted {
                id: id as nat,
                new_title: title_view(title),
            },
            Prompt::DeleteId => PromptView::DeleteId,
        }
    }
}

impl View for Command {
    type V = CommandView;

    open spec fn view(&self) -> CommandView {
        match *self {
            Command::Create { title } => CommandView::Create { title: title@ },
            Command::Read { id } => CommandView::Read { id: id as nat },
            Command::Update { id, title, completed } => CommandView::Update {
                id: id as nat,
                new_title: title_view(title),
                new_completed: completed,
            },
            Command::Delete { id } => CommandView::Delete { id: id as nat },
            Command::List => CommandView::List,
        }
    }
}

impl View for Step {
    type V = StepView;

    open spec fn view(&self) -> StepView {
        match *self {
            Step::Ask(prompt) => StepView::Ask(prompt@),
            Step::Run(command) => StepView::Run(command@),
            Step::Invalid => StepView::Invalid,
            Step::Exit => StepView::Exit,
            Step::Malformed(field) => StepView::Malformed(field),
        }
    }
}

/// What a choice at the menu leads to: `1` to `4` ask for the first field of
/// a create, read, update or delete; `5` lists; `6` leaves; anything else is
/// no choice.
pub open spec fn menu_step(text: Seq<char>) -> StepView {
    if text == seq!['1'] {
        StepView::Ask(PromptView::CreateTitle)
    } else if text == seq!['2'] {
        StepView::Ask(PromptView::ReadId)
    } else if text == seq!['3'] {
        StepView::Ask(PromptView::UpdateId)
    } else if text == seq!['4'] {
        StepView::Ask(PromptView::DeleteId)
    } else if text == seq!['5'] {
        StepView::Run(CommandView::List)
    } else if text == seq!['6'] {
        StepView::Exit
    } else {
        StepView::Invalid
    }
}

/// An answer that may be left empty: empty stands for no answer.
pub open spec fn optional_text(text: Seq<char>) -> Option<Seq<char>> {
    if text.len() == 0 {
        None
    } else {
        Some(text)
    }
}

/// What the answer `text` to `prompt` leads to. `text` is the line without
/// the white space around it.
pub open spec fn next_step(prompt: PromptView, text: Seq<char>) -> StepView {
    match prompt {
        PromptView::Menu => menu_step(text),
        PromptView::CreateTitle => StepView::Run(CommandView::Create { title: text }),
        PromptView::ReadId => match number_of(text) {
            Some(id) => StepView::Run(CommandView::Read { id: id as nat }),
            None => StepView::Malformed(Field::Id),
        },
        PromptView::UpdateId => match number_of(text) {
            Some(id) => StepView::Ask(PromptView::UpdateTitle { id: id as nat }),
            None => StepView::Malformed(Field::Id),
        },
        PromptView::UpdateTitle { id } => StepView::Ask(
            PromptView::UpdateCompleted { id, new_title: optional_text(text) },
        ),
        PromptView::UpdateCompleted { id, new_title } => if text.len() == 0 {
            StepView::Run(CommandView::Update { id, new_title, new_completed: None })
        } else {
            match flag_of(text) {
                Some(flag) => StepView::Run(
                    CommandView::Update { id, new_title, new_completed: Some(flag) },
                ),
                None => StepView::Malformed(Field::Completed),
            }
        },
        PromptView::DeleteId => match number_of(text) {
            Some(id) => StepView::Run(CommandView::Delete { id: id as nat }),
            None => StepView::Malformed(Field::Id),
        },
    }
}

/// What a choice at the menu leads to.
pub fn choose_at_menu(text: &str) -> (step: Step)
    ensures
        step@ == menu_step(text@),
{
    proof {
        reveal_strlit("1");
        reveal_strlit("2");
        reveal_strlit("3");
        reveal_strlit("4");
        reveal_strlit("5");
        reveal_strlit("6");
        assert("1"@ =~= seq!['1']);
        assert("2"@ =~= seq!['2']);
        assert("3"@ =~= seq!['3']);
        assert("4"@ =~= seq!['4']);
        assert("5"@ =~= seq!['5']);
        assert("6"@ =~= seq!['6']);
    }
    if same_text(text, "1") {
        Step::Ask(Prompt::CreateTitle)
    } else if same_text(text, "2") {
        Step::Ask(Prompt::ReadId)
    } else if same_text(text, "3") {
        Step::Ask(Prompt::UpdateId)
    } else if same_text(text, "4") {
        Step::Ask(Prompt::DeleteId)
    } else if same_text(text, "5") {
        Step::Run(Command::List)
    } else if same_text(text, "6") {
        Step::Exit
    } else {
        Step::Invalid
    }
}

/// What the answer `text` to `prompt` leads to, `text` being the line
/// without the white space around it.
pub fn advance(prompt: Prompt, text: &str) -> (step: Step)
    ensures
        step@ == next_step(prompt@, text@),
{
    match prompt {
        Prompt::Menu => choose_at_menu(text),
        Prompt::CreateTitle => Step::Run(Command::Create { title: text.to_owned() }),
        Prompt::ReadId => match parse_number(text) {
            Some(id) => Step::Run(Command::Read { id }),
            None => Step::Malformed(Field::Id),
        },
        Prompt::UpdateId => match parse_number(text) {
            Some(id) => Step::Ask(Prompt::UpdateTitle { id }),
            None => Step::Malformed(Field::Id),
        },
        Prompt::UpdateTitle { id } => {
            let title = if text.is_empty() {
                None
            } else {
                Some(text.to_owned())
            };
            Step::Ask(Prompt::UpdateCompleted { id, title })
        },
        Prompt::UpdateCompleted { id, title } => {
            if text.is_empty() {
                Step::Run(Command::Update { id, title, completed: None })
            } else {
                match parse_flag(text) {
                    Some(flag) => Step::Run(Command::Update { id, title, completed: Some(flag) }),
                    None => Step::Malformed(Field::Completed),
                }
            }
        },
        Prompt::DeleteId => match parse_number(text) {
            Some(id) => Step::Run(Command::Delete { id }),
            None => Step::Malformed(Field::Id),
        },
    }
}

/// The line without the white space at its two ends.
pub uninterp spec fn trimmed(line: Seq<char>) -> Seq<char>;

/// Calls `str::trim` of the standard library, which returns the part of the
/// line between its leading and its trailing white space. The contract
/// claims only that this part is determined by the characters of the line.
#[verifier::external_body]
fn trim(line: &str) -> (text: &str)
    ensures
        text@ == trimmed(line@),
{
    line.trim()
}

/// What the line that was read in answer to `prompt` leads to. White space
/// around the answer, the line's end included, does not count.
pub fn step(prompt: Prompt, line: &str) -> (step: Step)
    ensures
        step@ == next_step(prompt@, trimmed(line@)),
{
    advance(prompt, trim(line))
}

} // verus!
