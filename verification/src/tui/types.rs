//! What the conversation shows, and what keys ask for.

use crate::text;
use crate::text::{same, trimmed};
use vstd::prelude::*;
use vstd::string::*;

verus! {

/// How long a tool has run.
#[derive(Debug)]
pub struct Elapsed {
    pub millis: u64,
    /// In seconds, to one decimal place.
    pub seconds: String,
}

#[verifier::ext_equal]
pub ghost struct ElapsedView {
    pub millis: u64,
    pub seconds: Seq<char>,
}

impl DeepView for Elapsed {
    type V = ElapsedView;

    open spec fn deep_view(&self) -> ElapsedView {
        ElapsedView { millis: self.millis, seconds: self.seconds@ }
    }
}

impl Clone for Elapsed {
    fn clone(&self) -> (r: Self)
        ensures
            r.deep_view() == self.deep_view(),
    {
        Elapsed { millis: self.millis, seconds: self.seconds.clone() }
    }
}

/// How a tool call fares.
#[derive(Debug)]
pub enum ToolCallStatus {
    /// It runs, as the call of this number, and has for so long.
    Running { call: u64, elapsed: Elapsed },
    /// It is done, after so long.
    Success(Elapsed),
    Failed(String),
}

#[verifier::ext_equal]
pub ghost enum StatusView {
    Running { call: u64, elapsed: ElapsedView },
    Success(ElapsedView),
    Failed(Seq<char>),
}

impl DeepView for ToolCallStatus {
    type V = StatusView;

    open spec fn deep_view(&self) -> StatusView {
        match self {
            ToolCallStatus::Running { call, elapsed } => StatusView::Running {
                call: *call,
                elapsed: elapsed.deep_view(),
            },
            ToolCallStatus::Success(elapsed) => StatusView::Success(elapsed.deep_view()),
            ToolCallStatus::Failed(message) => StatusView::Failed(message@),
        }
    }
}

/// An entry of the conversation.
#[derive(Debug)]
pub enum ConversationEntry {
    UserInput(String),
    AssistantText(String),
    ToolCall {
        tool_name: String,
        input_summary: String,
        status: ToolCallStatus,
        result_summary: Option<String>,
        expanded: bool,
    },
    PermissionPrompt { tool_name: String, capabilities: Vec<String>, input_summary: String },
    Info(String),
    Error(String),
}

#[verifier::ext_equal]
pub ghost enum EntryView {
    UserInput(Seq<char>),
    AssistantText(Seq<char>),
    ToolCall {
        tool_name: Seq<char>,
        input_summary: Seq<char>,
        status: StatusView,
        result_summary: Option<Seq<char>>,
        expanded: bool,
    },
    PermissionPrompt {
        tool_name: Seq<char>,
        capabilities: Seq<Seq<char>>,
        input_summary: Seq<char>,
    },
    Info(Seq<char>),
    Error(Seq<char>),
}

impl DeepView for ConversationEntry {
    type V = EntryView;

    open spec fn deep_view(&self) -> EntryView {
        match self {
            ConversationEntry::UserInput(t) => EntryView::UserInput(t@),
            ConversationEntry::AssistantText(t) => EntryView::AssistantText(t@),
            ConversationEntry::ToolCall {
                tool_name,
                input_summary,
                status,
                result_summary,
                expanded,
            } => EntryView::ToolCall {
                tool_name: tool_name@,
                input_summary: input_summary@,
                status: status.deep_view(),
                result_summary: result_summary.deep_view(),
                expanded: *expanded,
            },
            ConversationEntry::PermissionPrompt { tool_name, capabilities, input_summary } =>
            EntryView::PermissionPrompt {
                tool_name: tool_name@,
                capabilities: capabilities.deep_view(),
                input_summary: input_summary@,
            },
            ConversationEntry::Info(t) => EntryView::Info(t@),
            ConversationEntry::Error(t) => EntryView::Error(t@),
        }
    }
}

/// A command that is typed with a slash.
#[derive(Debug, PartialEq, Eq)]
pub enum SlashCommand {
    Clear,
    Compact,
    Status,
    Tools,
    Quit,
    Unknown(String),
}

#[verifier::ext_equal]
pub ghost enum CommandView {
    Clear,
    Compact,
    Status,
    Tools,
    Quit,
    Unknown(Seq<char>),
}

impl DeepView for SlashCommand {
    type V = CommandView;

    open spec fn deep_view(&self) -> CommandView {
        match self {
            SlashCommand::Clear => CommandView::Clear,
            SlashCommand::Compact => CommandView::Compact,
            SlashCommand::Status => CommandView::Status,
            SlashCommand::Tools => CommandView::Tools,
            SlashCommand::Quit => CommandView::Quit,
            SlashCommand::Unknown(name) => CommandView::Unknown(name@),
        }
    }
}

/// What a key or the mouse asks for.
#[derive(Debug, PartialEq, Eq)]
pub enum InputAction {
    Submit(String),
    SlashCommand(SlashCommand),
    PermissionDecision(bool),
    PermissionAlwaysAllow,
    Cancel,
    Quit,
    Nothing,
}

#[verifier::ext_equal]
pub ghost enum ActionView {
    Submit(Seq<char>),
    SlashCommand(CommandView),
    PermissionDecision(bool),
    PermissionAlwaysAllow,
    Cancel,
    Quit,
    Nothing,
}

impl DeepView for InputAction {
    type V = ActionView;

    open spec fn deep_view(&self) -> ActionView {
        match self {
            InputAction::Submit(t) => ActionView::Submit(t@),
            InputAction::SlashCommand(c) => ActionView::SlashCommand(c.deep_view()),
            InputAction::PermissionDecision(allow) => ActionView::PermissionDecision(*allow),
            InputAction::PermissionAlwaysAllow => ActionView::PermissionAlwaysAllow,
            InputAction::Cancel => ActionView::Cancel,
            InputAction::Quit => ActionView::Quit,
            InputAction::Nothing => ActionView::Nothing,
        }
    }
}

/// The command in a text, where it is one: it starts with a slash, but for
/// white space.
pub open spec fn slash_command(t: Seq<char>) -> Option<CommandView> {
    let command = text::trim(t);
    if !(command.len() > 0 && command[0] == '/') {
        None
    } else if command == "/clear"@ {
        Some(CommandView::Clear)
    } else if command == "/compact"@ {
        Some(CommandView::Compact)
    } else if command == "/status"@ {
        Some(CommandView::Status)
    } else if command == "/tools"@ {
        Some(CommandView::Tools)
    } else if command == "/quit"@ || command == "/exit"@ {
        Some(CommandView::Quit)
    } else {
        Some(CommandView::Unknown(command))
    }
}

/// The command in a text, where it is one.
pub fn parse_slash_command(text: &str) -> (r: Option<SlashCommand>)
    ensures
        r.deep_view() == slash_command(text@),
{
    let command = trimmed(text);
    let c = command.as_str();
    if !(c.unicode_len() > 0 && c.get_char(0) == '/') {
        None
    } else if same(c, "/clear") {
        Some(SlashCommand::Clear)
    } else if same(c, "/compact") {
        Some(SlashCommand::Compact)
    } else if same(c, "/status") {
        Some(SlashCommand::Status)
    } else if same(c, "/tools") {
        Some(SlashCommand::Tools)
    } else if same(c, "/quit") || same(c, "/exit") {
        Some(SlashCommand::Quit)
    } else {
        Some(SlashCommand::Unknown(command))
    }
}

// ---------------------------------------------------------------------------
// Laws
// ---------------------------------------------------------------------------

/// A text is a command where it starts with a slash, but for white space. The
/// commands are known by their names alone, and any other is told as unknown under
/// the name that was given.
pub proof fn law_commands_go_by_their_name(t: Seq<char>)
    ensures
        slash_command(t) is Some <==> text::trim(t).len() > 0 && text::trim(t)[0] == '/',
        text::trim(t) == "/clear"@ <==> slash_command(t) == Some(CommandView::Clear),
        text::trim(t) == "/compact"@ <==> slash_command(t) == Some(CommandView::Compact),
        text::trim(t) == "/status"@ <==> slash_command(t) == Some(CommandView::Status),
        text::trim(t) == "/tools"@ <==> slash_command(t) == Some(CommandView::Tools),
        text::trim(t) == "/quit"@ || text::trim(t) == "/exit"@ <==> slash_command(t) == Some(
            CommandView::Quit,
        ),
        slash_command(t) matches Some(CommandView::Unknown(name)) ==> name == text::trim(t),
{
    reveal_strlit("/clear");
    reveal_strlit("/compact");
    reveal_strlit("/status");
    reveal_strlit("/tools");
    reveal_strlit("/quit");
    reveal_strlit("/exit");
    assert("/clear"@.len() == 6 && "/clear"@[0] == '/' && "/clear"@[1] == 'c');
    assert("/compact"@.len() == 8 && "/compact"@[0] == '/');
    assert("/status"@.len() == 7 && "/status"@[0] == '/');
    assert("/tools"@.len() == 6 && "/tools"@[0] == '/' && "/tools"@[1] == 't');
    assert("/quit"@.len() == 5 && "/quit"@[0] == '/');
    assert("/exit"@.len() == 5 && "/exit"@[0] == '/');
}

} // verus!
