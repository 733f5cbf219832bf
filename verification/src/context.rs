//! The conversation with the model: its messages and the prompt made of them.

use vstd::prelude::*;
use vstd::string::StringExecFns;
use crate::text::{concat2, concat3};
use crate::tools::{Shell, ToolResult, ToolResultView, shell_name};

verus! {

/// How the system message begins; the shell's name follows.
pub const SYSTEM_HEAD: &'static str = "You are a shell command assistant for ";

/// The task, as the system message states it after the shell's name.
pub const SYSTEM_TASK: &'static str = ". Your task is to correct malformed commands or generate commands from natural language descriptions.\n\nYou have access to tools to discover what commands are available on the system. Use them when needed to verify command existence or learn command syntax.\n\n";

/// The tools, as the system message lists them.
pub const SYSTEM_TOOLS: &'static str = "<tools>\n[\n  {\"name\": \"which_binary\", \"description\": \"Check if a command exists and get its path\", \"parameters\": {\"command\": {\"type\": \"string\", \"required\": true}}},\n  {\"name\": \"get_command_help\", \"description\": \"Get help/synopsis for a command\", \"parameters\": {\"command\": {\"type\": \"string\", \"required\": true}}},\n  {\"name\": \"list_similar_commands\", \"description\": \"Find commands with similar names\", \"parameters\": {\"prefix\": {\"type\": \"string\", \"required\": true}}}\n]\n</tools>\n\n";

/// The rules, as the system message lists them.
pub const SYSTEM_RULES: &'static str = "Rules:\n1. If you're confident about the correction, output it directly without tool calls\n2. If unsure whether a command exists, use which_binary to check\n3. If you need syntax details, use get_command_help\n4. If a command seems misspelled, use list_similar_commands to find alternatives\n5. Output ONLY the corrected/generated command at the end - no explanations\n\n";

/// The format of a tool call, as the system message shows it.
pub const SYSTEM_FORMAT: &'static str = "Tool call format:\n<tool_call>\n{\"name\": \"tool_name\", \"arguments\": {\"param\": \"value\"}}\n</tool_call>";

/// Who wrote a message.
#[derive(Debug, Clone, Copy, PartialEq, Eq, Structural)]
pub enum MessageRole {
    System,
    User,
    Assistant,
    ToolResult,
}

/// One message of the conversation.
#[derive(Debug, Clone, PartialEq, Eq)]
pub struct Message {
    pub role: MessageRole,
    pub content: String,
}

/// A message, as a sequence of characters.
pub struct MessageView {
    pub role: MessageRole,
    pub content: Seq<char>,
}

impl View for Message {
    type V = MessageView;

    open spec fn view(&self) -> MessageView {
        MessageView { role: self.role, content: self.content@ }
    }
}

/// The system message for a shell.
pub open spec fn system_prompt_of(shell: Shell) -> Seq<char> {
    SYSTEM_HEAD@ + shell_name(shell) + SYSTEM_TASK@ + SYSTEM_TOOLS@ + SYSTEM_RULES@ + SYSTEM_FORMAT@
}

/// The system message for a shell.
pub fn system_prompt(shell: Shell) -> (r: String)
    ensures
        r@ == system_prompt_of(shell),
{
    let mut r = concat3(SYSTEM_HEAD, shell.as_str(), SYSTEM_TASK);
    r.append(SYSTEM_TOOLS);
    r.append(SYSTEM_RULES);
    r.append(SYSTEM_FORMAT);
    r
}


/// Who wrote a message that is not the system message.
#[derive(Clone, Copy, Debug, PartialEq, Eq, Structural)]
enum TurnRole {
    User,
    Assistant,
    ToolResult,
}

/// A message that is not the system message.
#[derive(Debug)]
struct Turn {
    role: TurnRole,
    content: String,
}

/// The role that a turn's role stands for.
spec fn role_of(role: TurnRole) -> MessageRole {
    match role {
        TurnRole::User => MessageRole::User,
        TurnRole::Assistant => MessageRole::Assistant,
        TurnRole::ToolResult => MessageRole::ToolResult,
    }
}

/// The turns as messages.
spec fn turn_views(turns: Seq<Turn>) -> Seq<MessageView> {
    Seq::new(
        turns.len(),
        |i: int| MessageView { role: role_of(turns[i].role), content: turns[i].content@ },
    )
}

/// The views of a list of messages.
pub open spec fn message_views(messages: Seq<Message>) -> Seq<MessageView> {
    Seq::new(messages.len(), |i: int| messages[i]@)
}

/// The tag a role is written with in a prompt.
pub open spec fn role_tag(role: MessageRole) -> Seq<char> {
    match role {
        MessageRole::System => "system"@,
        MessageRole::User => "user"@,
        MessageRole::Assistant => "assistant"@,
        MessageRole::ToolResult => "tool"@,
    }
}

/// One message as a block of the prompt, under its role's tag.
pub open spec fn block_of(message: MessageView) -> Seq<char> {
    "<|im_start|>"@ + role_tag(message.role) + "\n"@ + message.content + "<|im_end|>\n"@
}

/// The blocks of the messages, in their order.
pub open spec fn blocks_of(messages: Seq<MessageView>) -> Seq<char>
    decreases messages.len(),
{
    if messages.len() == 0 {
        Seq::empty()
    } else {
        blocks_of(messages.drop_last()) + block_of(messages.last())
    }
}

/// The prompt made of the messages: their blocks, then the opening of the
/// assistant's block, which the model is to fill.
pub open spec fn prompt_of(messages: Seq<MessageView>) -> Seq<char> {
    blocks_of(messages) + "<|im_start|>assistant\n"@
}

/// The user's message for a failed command.
pub open spec fn user_message_of(shell: Shell, command: Seq<char>) -> MessageView {
    MessageView {
        role: MessageRole::User,
        content: "Shell: "@ + shell_name(shell) + "\nInput: "@ + command,
    }
}

/// The messages with an error noted: on the last message where the user wrote
/// it, else in a new message of the user.
pub open spec fn with_error(messages: Seq<MessageView>, error: Seq<char>) -> Seq<MessageView> {
    if messages.len() > 0 && messages.last().role == MessageRole::User {
        messages.update(
            messages.len() - 1,
            MessageView {
                role: MessageRole::User,
                content: messages.last().content + "\nError: "@ + error,
            },
        )
    } else {
        messages.push(MessageView { role: MessageRole::User, content: "Error: "@ + error })
    }
}

/// What a tool's result tells the model: its output where it succeeded, else
/// its error.
pub open spec fn told_of(result: ToolResultView) -> Seq<char> {
    if result.success {
        result.output
    } else {
        match result.error {
            Some(e) => e,
            None => Seq::empty(),
        }
    }
}

/// The message that reports a tool's result.
pub open spec fn tool_message_of(result: ToolResultView) -> MessageView {
    MessageView {
        role: MessageRole::ToolResult,
        content: "<tool_response>\n"@ + told_of(result) + "\n</tool_response>"@,
    }
}

/// The conversation of one correction: the system message first, then what
/// the user, the model and the tools wrote, in the order in which they did.
#[derive(Debug)]
pub struct Context {
    system: String,
    turns: Vec<Turn>,
    shell: Shell,
}

/// A conversation: its messages, the system message first, and its shell.
pub struct ContextView {
    pub messages: Seq<MessageView>,
    pub shell: Shell,
}

impl View for Context {
    type V = ContextView;

    closed spec fn view(&self) -> ContextView {
        ContextView {
            messages: seq![MessageView { role: MessageRole::System, content: self.system@ }]
                + turn_views(self.turns@),
            shell: self.shell,
        }
    }
}

/// Every conversation has exactly one system message, and it comes first.
pub proof fn law_one_system_message(context: Context)
    ensures
        context@.messages.len() >= 1,
        context@.messages[0].role == MessageRole::System,
        forall|i: int|
            1 <= i < context@.messages.len() ==> (#[trigger] context@.messages[i]).role
                != MessageRole::System,
{
    let turns = turn_views(context.turns@);
    assert forall|i: int| 1 <= i < context@.messages.len() implies (#[trigger] context@.messages[i]).role
        != MessageRole::System by {
        assert(context@.messages[i] == turns[i - 1]);
    }
}

impl Context {
    /// A conversation that holds the system message for `shell`.
    pub fn new(shell: Shell) -> (r: Self)
        ensures
            r@ == (ContextView {
                messages: seq![
                    MessageView { role: MessageRole::System, content: system_prompt_of(shell) },
                ],
                shell,
            }),
    {
        let r = Context { system: system_prompt(shell), turns: Vec::new(), shell };
        assert(r@.messages =~= seq![
            MessageView { role: MessageRole::System, content: system_prompt_of(shell) },
        ]);
        r
    }

    /// Adds a message that is not the system message.
    fn push_turn(&mut self, role: TurnRole, content: String)
        ensures
            final(self)@ == (ContextView {
                messages: old(self)@.messages.push(
                    MessageView { role: role_of(role), content: content@ },
                ),
                ..old(self)@
            }),
    {
        self.turns.push(Turn { role, content });
        assert(self@.messages =~= old(self)@.messages.push(
            MessageView { role: role_of(role), content: content@ },
        ));
    }

    /// Adds the user's message for the failed command.
    pub fn add_user(&mut self, command: &str)
        ensures
            final(self)@ == (ContextView {
                messages: old(self)@.messages.push(user_message_of(old(self)@.shell, command@)),
                ..old(self)@
            }),
    {
        let mut content = concat3("Shell: ", self.shell.as_str(), "\nInput: ");
        content.append(command);
        self.push_turn(TurnRole::User, content);
    }

    /// Notes the error that the failed command gave.
    pub fn add_error(&mut self, error: &str)
        ensures
            final(self)@ == (ContextView {
                messages: with_error(old(self)@.messages, error@),
                ..old(self)@
            }),
    {
        let n: usize = self.turns.len();
        if n > 0 && matches!(self.turns[n - 1].role, TurnRole::User) {
            let content = concat3(self.turns[n - 1].content.as_str(), "\nError: ", error);
            assert(old(self)@.messages.last() == turn_views(self.turns@)[n - 1]);
            self.turns.set(n - 1, Turn { role: TurnRole::User, content });
            assert(self@.messages =~= with_error(old(self)@.messages, error@));
        } else {
            proof {
                if n > 0 {
                    assert(old(self)@.messages.last() == turn_views(self.turns@)[n - 1]);
                }
            }
            self.push_turn(TurnRole::User, concat2("Error: ", error));
        }
    }

    /// Adds what the model wrote.
    pub fn add_assistant(&mut self, response: &str)
        ensures
            final(self)@ == (ContextView {
                messages: old(self)@.messages.push(
                    MessageView { role: MessageRole::Assistant, content: response@ },
                ),
                ..old(self)@
            }),
    {
        self.push_turn(TurnRole::Assistant, response.to_owned());
    }

    /// Adds the message that reports a tool's result.
    pub fn add_tool_result(&mut self, _tool_name: &str, result: &ToolResult)
        ensures
            final(self)@ == (ContextView {
                messages: old(self)@.messages.push(tool_message_of(result@)),
                ..old(self)@
            }),
    {
        let content = if result.success {
            concat3("<tool_response>\n", result.output.as_str(), "\n</tool_response>")
        } else {
            match &result.error {
                Some(e) => concat3("<tool_response>\n", e.as_str(), "\n</tool_response>"),
                None => {
                    let r = concat2("<tool_response>\n", "\n</tool_response>");
                    assert(r@ =~= "<tool_response>\n"@ + Seq::<char>::empty()
                        + "\n</tool_response>"@);
                    r
                },
            }
        };
        self.push_turn(TurnRole::ToolResult, content);
    }

    /// The prompt made of the conversation.
    pub fn build_prompt(&self) -> (r: String)
        ensures
            r@ == prompt_of(self@.messages),
    {
        let mut prompt = String::new();
        prompt.append("<|im_start|>");
        prompt.append("system");
        prompt.append("\n");
        prompt.append(self.system.as_str());
        prompt.append("<|im_end|>\n");
        let ghost all = self@.messages;
        proof {
            let first = all.take(1);
            assert(first.drop_last() =~= Seq::<MessageView>::empty());
            assert(blocks_of(first.drop_last()) =~= Seq::<char>::empty());
            assert(first.last() == all[0]);
            assert(prompt@ =~= blocks_of(first));
        }
        let mut i: usize = 0;
        while i < self.turns.len()
            invariant
                i <= self.turns.len(),
                all == self@.messages,
                all.len() == self.turns.len() + 1,
                prompt@ == blocks_of(all.take(i + 1)),
            decreases self.turns.len() - i,
        {
            let tag = match self.turns[i].role {
                TurnRole::User => "user",
                TurnRole::Assistant => "assistant",
                TurnRole::ToolResult => "tool",
            };
            let ghost before = prompt@;
            prompt.append("<|im_start|>");
            prompt.append(tag);
            prompt.append("\n");
            prompt.append(self.turns[i].content.as_str());
            prompt.append("<|im_end|>\n");
            proof {
                let next = all.take(i + 2);
                assert(next.drop_last() =~= all.take(i + 1));
                assert(next.last() == all[i + 1]);
                assert(all[i + 1] == turn_views(self.turns@)[i as int]);
                assert(prompt@ =~= before + block_of(all[i + 1]));
            }
            i += 1;
        }
        assert(all.take(self.turns.len() + 1) =~= all);
        prompt.append("<|im_start|>assistant\n");
        prompt
    }

    /// The conversation's shell.
    pub fn shell(&self) -> (r: Shell)
        ensures
            r == self@.shell,
    {
        self.shell
    }

    /// The messages of the conversation, the system message first.
    pub fn messages(&self) -> (r: Vec<Message>)
        ensures
            message_views(r@) == self@.messages,
    {
        let mut r: Vec<Message> = Vec::new();
        r.push(Message { role: MessageRole::System, content: self.system.clone() });
        let ghost all = self@.messages;
        assert(message_views(r@) =~= all.take(1));
        let mut i: usize = 0;
        while i < self.turns.len()
            invariant
                i <= self.turns.len(),
                all == self@.messages,
                all.len() == self.turns.len() + 1,
                message_views(r@) == all.take(i + 1),
            decreases self.turns.len() - i,
        {
            let role = match self.turns[i].role {
                TurnRole::User => MessageRole::User,
                TurnRole::Assistant => MessageRole::Assistant,
                TurnRole::ToolResult => MessageRole::ToolResult,
            };
            let ghost before = message_views(r@);
            let m = Message { role, content: self.turns[i].content.clone() };
            r.push(m);
            proof {
                assert(all[i + 1] == turn_views(self.turns@)[i as int]);
                assert(message_views(r@) =~= before.push(m@));
                assert(all.take(i + 2) =~= all.take(i + 1).push(all[i + 1]));
            }
            i += 1;
        }
        assert(all.take(self.turns.len() + 1) =~= all);
        r
    }
}

} // verus!
