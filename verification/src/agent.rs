//! The correction loop: ask the model, run the tool it asks for, ask again,
//! at most three times; then fall back on the command as it was given.

use vstd::prelude::*;
use crate::args::ToolArgs;
use crate::context::{Context, ContextView, MessageRole, MessageView, prompt_of, system_prompt_of,
    tool_message_of, user_message_of, with_error};
use crate::parser::{ModelResponse, ResponseView, parse_response, parsed};
use crate::text::{chars_of, concat2, is_str, slice, text_of};
use crate::tools::{Shell, Tool, ToolResult, ToolResultView, ToolView, failed};

verus! {

/// How often the model is asked at most.
pub const MAX_ITERATIONS: usize = 3;

/// How many characters of a tool's output the model is shown at most.
pub const MAX_TOOL_OUTPUT_CHARS: usize = 200;

/// What a correction ends with.
#[derive(Debug, Clone, PartialEq, Eq)]
pub struct AgentResult {
    /// The corrected command.
    pub command: String,
    /// How often the model was asked.
    pub iterations: usize,
    /// Whether the model asked for a tool.
    pub tools_used: bool,
}

/// A correction's result, as a sequence of characters.
pub struct AgentResultView {
    pub command: Seq<char>,
    pub iterations: int,
    pub tools_used: bool,
}

impl View for AgentResult {
    type V = AgentResultView;

    open spec fn view(&self) -> AgentResultView {
        AgentResultView {
            command: self.command@,
            iterations: self.iterations as int,
            tools_used: self.tools_used,
        }
    }
}

/// Output cut to the budget: as it is where it has at most two hundred
/// characters, else its first two hundred followed by three dots.
pub open spec fn truncated(output: Seq<char>) -> Seq<char> {
    if output.len() <= MAX_TOOL_OUTPUT_CHARS {
        output
    } else {
        output.take(MAX_TOOL_OUTPUT_CHARS as int) + "..."@
    }
}

/// Output cut to the budget.
pub fn truncate_output(output: &str) -> (r: String)
    ensures
        r@ == truncated(output@),
{
    let s = chars_of(output);
    if s.len() <= MAX_TOOL_OUTPUT_CHARS {
        output.to_owned()
    } else {
        let head = slice(&s, 0, MAX_TOOL_OUTPUT_CHARS);
        assert(s@.subrange(0, MAX_TOOL_OUTPUT_CHARS as int) =~= s@.take(
            MAX_TOOL_OUTPUT_CHARS as int,
        ));
        let kept = text_of(&head);
        concat2(kept.as_str(), "...")
    }
}

/// The five kinds of tool.
#[derive(Debug, Clone, Copy, PartialEq, Eq, Structural)]
pub enum ToolKind {
    HelpOutput,
    WhichBinary,
    ListSimilar,
    GetEnvVar,
    ManPage,
}

/// The kind of tool that a name stands for. A kind may have two names: the
/// one the model was trained on and the one the tool itself bears.
pub open spec fn kind_named(name: Seq<char>) -> Option<ToolKind> {
    if name == "get_command_help"@ || name == "help_output"@ {
        Some(ToolKind::HelpOutput)
    } else if name == "which_binary"@ {
        Some(ToolKind::WhichBinary)
    } else if name == "list_similar_commands"@ || name == "list_similar"@ {
        Some(ToolKind::ListSimilar)
    } else if name == "get_env_var"@ {
        Some(ToolKind::GetEnvVar)
    } else if name == "man_page"@ {
        Some(ToolKind::ManPage)
    } else {
        None
    }
}

/// The argument that a kind of tool needs.
pub open spec fn argument_of(kind: ToolKind) -> Seq<char> {
    match kind {
        ToolKind::HelpOutput => "command"@,
        ToolKind::WhichBinary => "command"@,
        ToolKind::ListSimilar => "prefix"@,
        ToolKind::GetEnvVar => "name"@,
        ToolKind::ManPage => "command"@,
    }
}

/// The tool of a kind, asked about `subject`.
pub open spec fn tool_of(kind: ToolKind, subject: Seq<char>) -> ToolView {
    match kind {
        ToolKind::HelpOutput => ToolView::HelpOutput { command: subject },
        ToolKind::WhichBinary => ToolView::WhichBinary { command: subject },
        ToolKind::ListSimilar => ToolView::ListSimilar { prefix: subject },
        ToolKind::GetEnvVar => ToolView::GetEnvVar { name: subject },
        ToolKind::ManPage => ToolView::ManPage { command: subject },
    }
}

/// The tool that a call asks for: the name must stand for a kind of tool, and
/// the arguments must hold the one that this kind needs.
pub open spec fn tool_for(name: Seq<char>, args: Map<Seq<char>, Seq<char>>) -> Option<ToolView> {
    match kind_named(name) {
        Some(kind) => if args.contains_key(argument_of(kind)) {
            Some(tool_of(kind, args[argument_of(kind)]))
        } else {
            None
        },
        None => None,
    }
}

/// The kind of tool that a name stands for.
pub fn resolve_alias(name: &str) -> (r: Option<ToolKind>)
    ensures
        r == kind_named(name@),
{
    let n = chars_of(name);
    if is_str(&n, "get_command_help") || is_str(&n, "help_output") {
        Some(ToolKind::HelpOutput)
    } else if is_str(&n, "which_binary") {
        Some(ToolKind::WhichBinary)
    } else if is_str(&n, "list_similar_commands") || is_str(&n, "list_similar") {
        Some(ToolKind::ListSimilar)
    } else if is_str(&n, "get_env_var") {
        Some(ToolKind::GetEnvVar)
    } else if is_str(&n, "man_page") {
        Some(ToolKind::ManPage)
    } else {
        None
    }
}

/// The tool that a call asks for.
pub fn create_tool(name: &str, args: &ToolArgs) -> (r: Option<Tool>)
    ensures
        match r {
            Some(tool) => tool_for(name@, args@) == Some(tool@),
            None => tool_for(name@, args@) is None,
        },
{
    let kind = match resolve_alias(name) {
        Some(kind) => kind,
        None => {
            return None;
        },
    };
    let key = match kind {
        ToolKind::HelpOutput => "command",
        ToolKind::WhichBinary => "command",
        ToolKind::ListSimilar => "prefix",
        ToolKind::GetEnvVar => "name",
        ToolKind::ManPage => "command",
    };
    let subject = match args.get(key) {
        Some(value) => value.clone(),
        None => {
            return None;
        },
    };
    Some(
        match kind {
            ToolKind::HelpOutput => Tool::HelpOutput { command: subject },
            ToolKind::WhichBinary => Tool::WhichBinary { command: subject },
            ToolKind::ListSimilar => Tool::ListSimilar { prefix: subject },
            ToolKind::GetEnvVar => Tool::GetEnvVar { name: subject },
            ToolKind::ManPage => Tool::ManPage { command: subject },
        },
    )
}

/// What a correction falls back on: the command as it was given.
pub fn fallback_correction(input: &str) -> (r: String)
    ensures
        r@ == input@,
{
    input.to_owned()
}

/// A tool's result with its output cut to the budget.
pub open spec fn shortened(result: ToolResultView) -> ToolResultView {
    ToolResultView { output: truncated(result.output), ..result }
}

/// A correction that waits: what was said so far, the command to correct, how
/// often the model has answered, and whether it asked for a tool.
pub struct AgentView {
    pub context: ContextView,
    pub input: Seq<char>,
    pub round: int,
    pub tools_used: bool,
}

/// Where a correction stands.
pub enum AgentStepView {
    /// The model is to complete the prompt.
    Generate(AgentView, Seq<char>),
    /// The tool is to be run.
    RunTool(AgentView, ToolView),
    /// The correction is over.
    Finished(AgentResultView),
}

/// The conversation that a correction begins with: the system message, and
/// the user's message with the command and, where there is one, the error.
pub open spec fn opening(shell: Shell, input: Seq<char>, error: Option<Seq<char>>) -> ContextView {
    let first = seq![
        MessageView { role: MessageRole::System, content: system_prompt_of(shell) },
        user_message_of(shell, input),
    ];
    ContextView {
        messages: match error {
            Some(e) => with_error(first, e),
            None => first,
        },
        shell,
    }
}

/// The step that asks the model to go on with the conversation.
pub open spec fn asking_model(agent: AgentView) -> AgentStepView {
    AgentStepView::Generate(agent, prompt_of(agent.context.messages))
}

/// How a correction begins.
pub open spec fn started(input: Seq<char>, shell: Shell, error: Option<Seq<char>>) -> AgentStepView {
    asking_model(
        AgentView { context: opening(shell, input, error), input, round: 0, tools_used: false },
    )
}

/// The correction with a message added to its conversation.
pub open spec fn having_heard(agent: AgentView, message: MessageView) -> AgentView {
    AgentView {
        context: ContextView {
            messages: agent.context.messages.push(message),
            ..agent.context
        },
        ..agent
    }
}

/// How a correction goes on after a round with a tool call: the model is asked
/// again, unless it has been asked three times; then the correction is over,
/// with the command as it was given.
pub open spec fn next_round(agent: AgentView) -> AgentStepView {
    if agent.round + 1 >= MAX_ITERATIONS {
        AgentStepView::Finished(
            AgentResultView {
                command: agent.input,
                iterations: MAX_ITERATIONS as int,
                tools_used: agent.tools_used,
            },
        )
    } else {
        asking_model(AgentView { round: agent.round + 1, ..agent })
    }
}

/// How a correction goes on when the model has written `response`. An answer
/// ends it. A tool call is added to the conversation as the model wrote it;
/// the tool is then to be run, or, where the call names no tool or lacks the
/// tool's argument, that failure is the tool's result.
pub open spec fn after_completion(agent: AgentView, response: Seq<char>) -> AgentStepView {
    match parsed(response) {
        ResponseView::FinalAnswer(text) => AgentStepView::Finished(
            AgentResultView {
                command: text,
                iterations: agent.round + 1,
                tools_used: agent.tools_used,
            },
        ),
        ResponseView::ToolCall { name, args } => {
            let heard = AgentView {
                tools_used: true,
                ..having_heard(
                    agent,
                    MessageView { role: MessageRole::Assistant, content: response },
                )
            };
            match tool_for(name, args) {
                Some(tool) => AgentStepView::RunTool(heard, tool),
                None => next_round(
                    having_heard(heard, tool_message_of(failed("Unknown tool: "@ + name))),
                ),
            }
        },
    }
}

/// How a correction goes on when the tool has reported: the result, its
/// output cut to the budget, is added to the conversation.
pub open spec fn after_tool(agent: AgentView, result: ToolResultView) -> AgentStepView {
    next_round(having_heard(agent, tool_message_of(shortened(result))))
}

/// What happens to a correction from outside: the model completes the
/// prompt, or a tool reports.
pub enum AgentEvent {
    Completion(Seq<char>),
    ToolOutcome(ToolResultView),
}

/// Where a correction stands after one more event. An event that the
/// correction does not wait for changes nothing.
pub open spec fn after_event(before: AgentStepView, event: AgentEvent) -> AgentStepView {
    match (before, event) {
        (AgentStepView::Generate(agent, _), AgentEvent::Completion(response)) => after_completion(
            agent,
            response,
        ),
        (AgentStepView::RunTool(agent, _), AgentEvent::ToolOutcome(result)) => after_tool(
            agent,
            result,
        ),
        _ => before,
    }
}

/// Where a correction stands after the given events.
pub open spec fn agent_after(
    input: Seq<char>,
    shell: Shell,
    error: Option<Seq<char>>,
    events: Seq<AgentEvent>,
) -> AgentStepView
    decreases events.len(),
{
    if events.len() == 0 {
        started(input, shell, error)
    } else {
        after_event(agent_after(input, shell, error, events.drop_last()), events.last())
    }
}

/// The view of an error that may be there.
pub open spec fn error_view(error: Option<&str>) -> Option<Seq<char>> {
    match error {
        Some(e) => Some(e@),
        None => None,
    }
}

/// A correction that waits for the model.
#[derive(Debug)]
pub struct Agent {
    context: Context,
    input: String,
    round: usize,
    tools_used: bool,
}

impl View for Agent {
    type V = AgentView;

    closed spec fn view(&self) -> AgentView {
        AgentView {
            context: self.context@,
            input: self.input@,
            round: self.round as int,
            tools_used: self.tools_used,
        }
    }
}

/// A correction that waits for a tool.
#[derive(Debug)]
pub struct PendingTool {
    agent: Agent,
    name: String,
}

impl View for PendingTool {
    type V = AgentView;

    closed spec fn view(&self) -> AgentView {
        self.agent@
    }
}

/// Where a correction stands, and what it needs to go on.
#[derive(Debug)]
pub enum AgentStep {
    /// The model is to complete this prompt.
    Generate(Agent, String),
    /// This tool is to be run.
    RunTool(PendingTool, Tool),
    /// The correction is over.
    Finished(AgentResult),
}

impl View for AgentStep {
    type V = AgentStepView;

    open spec fn view(&self) -> AgentStepView {
        match self {
            AgentStep::Generate(agent, prompt) => AgentStepView::Generate(agent@, prompt@),
            AgentStep::RunTool(pending, tool) => AgentStepView::RunTool(pending@, tool@),
            AgentStep::Finished(result) => AgentStepView::Finished(result@),
        }
    }
}

/// How many events a correction can still take before it is over, at most.
pub open spec fn budget_of(step: AgentStepView) -> int {
    match step {
        AgentStepView::Generate(agent, _) => 2 * (MAX_ITERATIONS - agent.round),
        AgentStepView::RunTool(agent, _) => 2 * (MAX_ITERATIONS - agent.round) - 1,
        AgentStepView::Finished(_) => 0,
    }
}

/// Whether a step is one that a correction can be at: the model has answered
/// fewer than three times where the correction still waits, and has been asked
/// between one and three times where it is over.
pub open spec fn in_bounds(step: AgentStepView) -> bool {
    match step {
        AgentStepView::Generate(agent, _) => 0 <= agent.round < MAX_ITERATIONS,
        AgentStepView::RunTool(agent, _) => 0 <= agent.round < MAX_ITERATIONS,
        AgentStepView::Finished(result) => 1 <= result.iterations <= MAX_ITERATIONS,
    }
}

/// Each event that a correction waits for brings it nearer to its end.
pub proof fn lemma_steps_shrink(agent: AgentView, response: Seq<char>, result: ToolResultView)
    requires
        0 <= agent.round < MAX_ITERATIONS,
    ensures
        in_bounds(after_completion(agent, response)),
        in_bounds(after_tool(agent, result)),
        budget_of(after_completion(agent, response)) < 2 * (MAX_ITERATIONS - agent.round),
        budget_of(after_tool(agent, result)) < 2 * (MAX_ITERATIONS - agent.round) - 1,
{
}

/// The step after a round with a tool call.
fn next_step(context: Context, input: String, round: usize, tools_used: bool) -> (step: AgentStep)
    requires
        round < MAX_ITERATIONS,
    ensures
        step@ == next_round(
            AgentView { context: context@, input: input@, round: round as int, tools_used },
        ),
{
    if round + 1 >= MAX_ITERATIONS {
        AgentStep::Finished(
            AgentResult {
                command: fallback_correction(input.as_str()),
                iterations: MAX_ITERATIONS,
                tools_used,
            },
        )
    } else {
        let prompt = context.build_prompt();
        AgentStep::Generate(Agent { context, input, round: round + 1, tools_used }, prompt)
    }
}

impl Agent {
    #[verifier::type_invariant]
    spec fn in_time(self) -> bool {
        self.round < MAX_ITERATIONS
    }

    /// Begins the correction of `input`, which failed on `shell` with `error`.
    pub fn start(input: &str, shell: Shell, error: Option<&str>) -> (step: AgentStep)
        ensures
            step@ == started(input@, shell, error_view(error)),
    {
        let mut context = Context::new(shell);
        context.add_user(input);
        assert(context@.messages =~= seq![
            MessageView { role: MessageRole::System, content: system_prompt_of(shell) },
            user_message_of(shell, input@),
        ]);
        if let Some(e) = error {
            context.add_error(e);
        }
        let prompt = context.build_prompt();
        AgentStep::Generate(
            Agent { context, input: input.to_owned(), round: 0, tools_used: false },
            prompt,
        )
    }

    /// Goes on with what the model wrote.
    pub fn on_completion(self, response: &str) -> (step: AgentStep)
        ensures
            step@ == after_completion(self@, response@),
            in_bounds(step@),
            budget_of(step@) < 2 * (MAX_ITERATIONS - self@.round),
    {
        proof {
            use_type_invariant(&self);
            lemma_steps_shrink(self@, response@, failed(Seq::empty()));
        }
        let Agent { context, input, round, tools_used } = self;
        let mut context = context;
        match parse_response(response) {
            ModelResponse::FinalAnswer(text) => AgentStep::Finished(
                AgentResult { command: text, iterations: round + 1, tools_used },
            ),
            ModelResponse::ToolCall { name, args } => {
                context.add_assistant(response);
                match create_tool(name.as_str(), &args) {
                    Some(tool) => AgentStep::RunTool(
                        PendingTool {
                            agent: Agent { context, input, round, tools_used: true },
                            name,
                        },
                        tool,
                    ),
                    None => {
                        let unknown = ToolResult::failure(concat2("Unknown tool: ", name.as_str()));
                        context.add_tool_result(name.as_str(), &unknown);
                        next_step(context, input, round, true)
                    },
                }
            },
        }
    }
}

impl PendingTool {
    /// Goes on with what the tool reported.
    pub fn on_tool_result(self, result: ToolResult) -> (step: AgentStep)
        ensures
            step@ == after_tool(self@, result@),
            in_bounds(step@),
            budget_of(step@) < 2 * (MAX_ITERATIONS - self@.round) - 1,
    {
        let PendingTool { agent, name } = self;
        proof {
            use_type_invariant(&agent);
            lemma_steps_shrink(agent@, Seq::empty(), result@);
        }
        let Agent { context, input, round, tools_used } = agent;
        let mut context = context;
        let shown = ToolResult {
            success: result.success,
            output: truncate_output(result.output.as_str()),
            error: result.error,
        };
        context.add_tool_result(name.as_str(), &shown);
        next_step(context, input, round, tools_used)
    }
}

/// What happened to a correction from outside, as it happened.
pub enum Occurrence {
    Completion(String),
    ToolOutcome(ToolResult),
}

impl View for Occurrence {
    type V = AgentEvent;

    open spec fn view(&self) -> AgentEvent {
        match self {
            Occurrence::Completion(response) => AgentEvent::Completion(response@),
            Occurrence::ToolOutcome(result) => AgentEvent::ToolOutcome(result@),
        }
    }
}

/// The views of a list of occurrences.
pub open spec fn event_views(events: Seq<Occurrence>) -> Seq<AgentEvent> {
    Seq::new(events.len(), |i: int| events[i]@)
}

/// Whether `event` is what the correction at `before` waits for and what the
/// model, or the tool, may have given: the model for the prompt that is out,
/// the tool runner for the tool that is to be run.
pub open spec fn caused<F: FnMut(&str) -> String, T: FnMut(&Tool) -> ToolResult>(
    generate_fn: F,
    run_tool: T,
    before: AgentStepView,
    event: Occurrence,
) -> bool {
    match (before, event) {
        (AgentStepView::Generate(_, prompt), Occurrence::Completion(response)) => exists|
            asked: &str,
        |
            asked@ == prompt && call_ensures(generate_fn, (asked,), response),
        (AgentStepView::RunTool(_, tool), Occurrence::ToolOutcome(result)) => exists|asked: Tool|
            asked@ == tool && call_ensures(run_tool, (&asked,), result),
        _ => false,
    }
}

/// Whether each of the events is what the correction waited for when it
/// happened, and what the model or the tool runner may have given then.
pub open spec fn heard<F: FnMut(&str) -> String, T: FnMut(&Tool) -> ToolResult>(
    generate_fn: F,
    run_tool: T,
    input: Seq<char>,
    shell: Shell,
    error: Option<Seq<char>>,
    events: Seq<Occurrence>,
) -> bool {
    forall|i: int|
        0 <= i < events.len() ==> caused(
            generate_fn,
            run_tool,
            agent_after(input, shell, error, event_views(events).take(i)),
            #[trigger] events[i],
        )
}

/// Events that were heard, and one more that was caused where they left the
/// correction, are heard too; and the correction stands then where that one
/// more event takes it.
proof fn lemma_heard_more<F: FnMut(&str) -> String, T: FnMut(&Tool) -> ToolResult>(
    generate_fn: F,
    run_tool: T,
    input: Seq<char>,
    shell: Shell,
    error: Option<Seq<char>>,
    events: Seq<Occurrence>,
    occurred: Occurrence,
)
    requires
        heard(generate_fn, run_tool, input, shell, error, events),
        caused(
            generate_fn,
            run_tool,
            agent_after(input, shell, error, event_views(events)),
            occurred,
        ),
    ensures
        heard(generate_fn, run_tool, input, shell, error, events.push(occurred)),
        agent_after(input, shell, error, event_views(events.push(occurred))) == after_event(
            agent_after(input, shell, error, event_views(events)),
            occurred@,
        ),
{
    let longer = events.push(occurred);
    let views = event_views(longer);
    assert(views.drop_last() =~= event_views(events));
    assert(views.last() == occurred@);
    assert forall|i: int| 0 <= i < longer.len() implies caused(
        generate_fn,
        run_tool,
        agent_after(input, shell, error, views.take(i)),
        #[trigger] longer[i],
    ) by {
        if i < events.len() {
            assert(views.take(i) =~= event_views(events).take(i));
            assert(longer[i] == events[i]);
        } else {
            assert(views.take(i) =~= event_views(events));
        }
    }
}

/// Corrects `input`, which failed on `shell` with `error`. The model is asked
/// through `generate_fn`; a tool that it asks for is run through `run_tool`.
/// The model is asked at most three times. Its first answer is the result; if
/// it gives none, the result is `input` itself. The result is what the
/// correction comes to with what the model and the tools gave.
pub fn agentic_correct<F: FnMut(&str) -> String, T: FnMut(&Tool) -> ToolResult>(
    input: &str,
    shell: Shell,
    error: Option<&str>,
    generate_fn: F,
    run_tool: T,
) -> (r: AgentResult)
    requires
        forall|prompt: &str| call_requires(generate_fn, (prompt,)),
        forall|tool: &Tool| call_requires(run_tool, (tool,)),
    ensures
        1 <= r.iterations <= MAX_ITERATIONS,
        exists|events: Seq<Occurrence>|
            heard(generate_fn, run_tool, input@, shell, error_view(error), events) && agent_after(
                input@,
                shell,
                error_view(error),
                event_views(events),
            ) == AgentStepView::Finished(r@),
{
    let mut ask_model = generate_fn;
    let mut use_tool = run_tool;
    let mut step = Agent::start(input, shell, error);
    let ghost events = Seq::<Occurrence>::empty();
    assert(event_views(events) =~= Seq::<AgentEvent>::empty());
    loop
        invariant
            step@ == agent_after(input@, shell, error_view(error), event_views(events)),
            heard(generate_fn, run_tool, input@, shell, error_view(error), events),
            in_bounds(step@),
            ask_model == generate_fn,
            use_tool == run_tool,
            forall|prompt: &str| call_requires(ask_model, (prompt,)),
            forall|tool: &Tool| call_requires(use_tool, (tool,)),
        decreases budget_of(step@),
    {
        let ghost before = step@;
        let ghost occurred: Occurrence;
        match step {
            AgentStep::Finished(result) => {
                return result;
            },
            AgentStep::Generate(agent, prompt) => {
                let response = ask_model(prompt.as_str());
                proof {
                    occurred = Occurrence::Completion(response);
                    assert(caused(generate_fn, run_tool, before, occurred));
                }
                step = agent.on_completion(response.as_str());
            },
            AgentStep::RunTool(pending, tool) => {
                let result = use_tool(&tool);
                proof {
                    occurred = Occurrence::ToolOutcome(result);
                    assert(caused(generate_fn, run_tool, before, occurred));
                }
                step = pending.on_tool_result(result);
            },
        }
        proof {
            lemma_heard_more(
                generate_fn,
                run_tool,
                input@,
                shell,
                error_view(error),
                events,
                occurred,
            );
            events = events.push(occurred);
        }
    }
}

/// Where a correction stands after any events, it is within its bounds: the
/// model is never asked more than three times.
pub proof fn law_iterations_bounded(
    input: Seq<char>,
    shell: Shell,
    error: Option<Seq<char>>,
    events: Seq<AgentEvent>,
)
    ensures
        in_bounds(agent_after(input, shell, error, events)),
    decreases events.len(),
{
    if events.len() > 0 {
        law_iterations_bounded(input, shell, error, events.drop_last());
        match agent_after(input, shell, error, events.drop_last()) {
            AgentStepView::Generate(agent, _) => {
                lemma_steps_shrink(agent, Seq::empty(), failed(Seq::empty()));
                if let AgentEvent::Completion(response) = events.last() {
                    lemma_steps_shrink(agent, response, failed(Seq::empty()));
                }
            },
            AgentStepView::RunTool(agent, _) => {
                if let AgentEvent::ToolOutcome(result) = events.last() {
                    lemma_steps_shrink(agent, Seq::empty(), result);
                }
            },
            AgentStepView::Finished(_) => {},
        }
    }
}

/// Where the model's first response is an answer, the correction is over
/// with it: that answer, after one iteration, without tools. Whatever comes
/// after changes nothing.
pub proof fn law_first_answer_ends(
    input: Seq<char>,
    shell: Shell,
    error: Option<Seq<char>>,
    events: Seq<AgentEvent>,
    response: Seq<char>,
    answer: Seq<char>,
)
    requires
        events.len() >= 1,
        events[0] == AgentEvent::Completion(response),
        parsed(response) == ResponseView::FinalAnswer(answer),
    ensures
        agent_after(input, shell, error, events) == AgentStepView::Finished(
            AgentResultView { command: answer, iterations: 1, tools_used: false },
        ),
    decreases events.len(),
{
    if events.len() == 1 {
        assert(events.drop_last() =~= Seq::<AgentEvent>::empty());
        assert(events.last() == events[0]);
    } else {
        assert(events.drop_last()[0] == events[0]);
        law_first_answer_ends(input, shell, error, events.drop_last(), response, answer);
    }
}

/// Whether every response of the model among the events is a tool call.
pub open spec fn only_tool_calls(events: Seq<AgentEvent>) -> bool {
    forall|i: int|
        0 <= i < events.len() ==> match #[trigger] events[i] {
            AgentEvent::Completion(response) => parsed(response) is ToolCall,
            AgentEvent::ToolOutcome(_) => true,
        }
}

/// Where the model answers with nothing but tool calls, a correction that
/// still waits has kept the command as it was given, and has noted the use of
/// tools as soon as the model has answered once.
proof fn lemma_tool_calls_keep_input(
    input: Seq<char>,
    shell: Shell,
    error: Option<Seq<char>>,
    events: Seq<AgentEvent>,
)
    requires
        only_tool_calls(events),
    ensures
        match agent_after(input, shell, error, events) {
            AgentStepView::Generate(agent, _) => agent.input == input && 0 <= agent.round
                < MAX_ITERATIONS && (agent.round > 0 ==> agent.tools_used),
            AgentStepView::RunTool(agent, _) => agent.input == input && 0 <= agent.round
                < MAX_ITERATIONS && agent.tools_used,
            AgentStepView::Finished(result) => result == (AgentResultView {
                command: input,
                iterations: MAX_ITERATIONS as int,
                tools_used: true,
            }),
        },
    decreases events.len(),
{
    if events.len() > 0 {
        let earlier = events.drop_last();
        assert forall|i: int| 0 <= i < earlier.len() implies match #[trigger] earlier[i] {
            AgentEvent::Completion(response) => parsed(response) is ToolCall,
            AgentEvent::ToolOutcome(_) => true,
        } by {
            assert(earlier[i] == events[i]);
        }
        lemma_tool_calls_keep_input(input, shell, error, earlier);
        assert(events.last() == events[events.len() - 1]);
    }
}

/// Where the model answers with a tool call every time, the correction ends
/// after three iterations, with tools used, on the command as it was given.
pub proof fn law_tool_calls_exhaust(
    input: Seq<char>,
    shell: Shell,
    error: Option<Seq<char>>,
    events: Seq<AgentEvent>,
    result: AgentResultView,
)
    requires
        only_tool_calls(events),
        agent_after(input, shell, error, events) == AgentStepView::Finished(result),
    ensures
        result == (AgentResultView {
            command: input,
            iterations: MAX_ITERATIONS as int,
            tools_used: true,
        }),
{
    lemma_tool_calls_keep_input(input, shell, error, events);
}

/// Each tool call adds two messages to the conversation before the model is
/// asked again: the call as the model wrote it, and one report of a tool's
/// result, which is a failure where the call could not be carried out.
pub proof fn law_one_report_per_call(
    agent: AgentView,
    response: Seq<char>,
    name: Seq<char>,
    args: Map<Seq<char>, Seq<char>>,
    result: ToolResultView,
)
    requires
        parsed(response) == (ResponseView::ToolCall { name, args }),
    ensures
        ({
            let call = MessageView { role: MessageRole::Assistant, content: response };
            let heard = AgentView { tools_used: true, ..having_heard(agent, call) };
            match tool_for(name, args) {
                Some(tool) => after_completion(agent, response) == AgentStepView::RunTool(
                    heard,
                    tool,
                ) && after_tool(heard, result) == next_round(
                    AgentView {
                        context: ContextView {
                            messages: agent.context.messages.push(call).push(
                                tool_message_of(shortened(result)),
                            ),
                            ..agent.context
                        },
                        ..heard
                    },
                ),
                None => after_completion(agent, response) == next_round(
                    AgentView {
                        context: ContextView {
                            messages: agent.context.messages.push(call).push(
                                tool_message_of(failed("Unknown tool: "@ + name)),
                            ),
                            ..agent.context
                        },
                        ..heard
                    },
                ),
            }
        }),
{
}

} // verus!
