use fix_lib::agent::{
    agentic_correct, create_tool, fallback_correction, resolve_alias, truncate_output, Agent,
    AgentResult, AgentStep, ToolKind, MAX_ITERATIONS,
};
use fix_lib::args::ToolArgs;
use fix_lib::context::{Context, Message, MessageRole};
use fix_lib::executor::ToolExecutor;
use fix_lib::host::{HostReply, HostRequest, ProcessOutcome};
use fix_lib::parser::{parse_response, ModelResponse};
use fix_lib::tools::{Shell, Tool, ToolResult};

/// A small Unix machine that knows `PATH` and has `git` and `ls`.
fn host(request: &HostRequest) -> HostReply {
    match request {
        HostRequest::ReadEnv { name } => HostReply::Env(if name == "PATH" {
            Some("/usr/bin:/bin".to_string())
        } else {
            None
        }),
        HostRequest::ScanPath => HostReply::Path(None),
        HostRequest::Run { program, args, .. } => {
            if program == "which" && args.len() == 1 && (args[0] == "git" || args[0] == "ls") {
                HostReply::Process(ProcessOutcome::Exited {
                    success: true,
                    status: "exit status: 0".to_string(),
                    stdout: format!("/usr/bin/{}\n", args[0]),
                })
            } else {
                HostReply::Process(ProcessOutcome::Exited {
                    success: false,
                    status: "exit status: 1".to_string(),
                    stdout: String::new(),
                })
            }
        }
    }
}

fn tools(shell: Shell) -> impl FnMut(&Tool) -> ToolResult {
    let mut executor = ToolExecutor::new(shell);
    move |tool: &Tool| executor.execute(tool, 0, host)
}

#[test]
fn test_context_new() {
    let ctx = Context::new(Shell::Bash);
    assert_eq!(ctx.shell(), Shell::Bash);
    assert_eq!(ctx.messages().len(), 1);
    assert_eq!(ctx.messages()[0].role, MessageRole::System);
}

#[test]
fn test_context_add_user() {
    let mut ctx = Context::new(Shell::Bash);
    ctx.add_user("gti status");

    assert_eq!(ctx.messages().len(), 2);
    assert_eq!(ctx.messages()[1].role, MessageRole::User);
    // Training data format: "Shell: {shell}\nInput: {command}"
    assert!(ctx.messages()[1].content.contains("Shell: bash"));
    assert!(ctx.messages()[1].content.contains("Input: gti status"));
}

#[test]
fn test_context_add_error() {
    let mut ctx = Context::new(Shell::Bash);
    ctx.add_user("gti status");
    ctx.add_error("command not found: gti");

    // Error should be appended to user message
    assert_eq!(ctx.messages().len(), 2);
    assert!(ctx.messages()[1].content.contains("Error:"));
    assert!(ctx.messages()[1].content.contains("command not found"));
}

#[test]
fn test_context_add_tool_result_success() {
    let mut ctx = Context::new(Shell::Bash);
    ctx.add_user("test");
    ctx.add_tool_result(
        "which_binary",
        &ToolResult::success("/usr/bin/git".to_string()),
    );

    assert_eq!(ctx.messages().len(), 3);
    assert_eq!(ctx.messages()[2].role, MessageRole::ToolResult);
    assert!(ctx.messages()[2].content.contains("/usr/bin/git"));
}

#[test]
fn test_context_add_tool_result_failure() {
    let mut ctx = Context::new(Shell::Bash);
    ctx.add_user("test");
    ctx.add_tool_result(
        "which_binary",
        &ToolResult::failure("not found".to_string()),
    );

    assert_eq!(ctx.messages().len(), 3);
    // Uses <tool_response> format matching training data
    assert!(ctx.messages()[2].content.contains("<tool_response>"));
    assert!(ctx.messages()[2].content.contains("not found"));
}

#[test]
fn test_context_build_prompt() {
    let mut ctx = Context::new(Shell::Bash);
    ctx.add_user("gti status");

    let prompt = ctx.build_prompt();

    assert!(prompt.contains("<|im_start|>system"));
    assert!(prompt.contains("<|im_start|>user"));
    assert!(prompt.contains("gti status"));
    assert!(prompt.contains("<|im_start|>assistant"));
    // Should end with assistant prompt for generation
    assert!(prompt.ends_with("<|im_start|>assistant\n"));
}

#[test]
fn test_create_tool_help_output() {
    let mut args = ToolArgs::new();
    args.insert("command".to_string(), "git".to_string());

    let tool = create_tool("help_output", &args);
    assert!(tool.is_some());
    assert_eq!(tool.unwrap().name(), "help_output");
}

#[test]
fn test_create_tool_which_binary() {
    let mut args = ToolArgs::new();
    args.insert("command".to_string(), "docker".to_string());

    let tool = create_tool("which_binary", &args);
    assert!(tool.is_some());
    assert_eq!(tool.unwrap().name(), "which_binary");
}

#[test]
fn test_create_tool_list_similar() {
    let mut args = ToolArgs::new();
    args.insert("prefix".to_string(), "gi".to_string());

    let tool = create_tool("list_similar", &args);
    assert!(tool.is_some());
    assert_eq!(tool.unwrap().name(), "list_similar");
}

#[test]
fn test_create_tool_get_env_var() {
    let mut args = ToolArgs::new();
    args.insert("name".to_string(), "PATH".to_string());

    let tool = create_tool("get_env_var", &args);
    assert!(tool.is_some());
    assert_eq!(tool.unwrap().name(), "get_env_var");
}

#[test]
fn test_create_tool_man_page() {
    let mut args = ToolArgs::new();
    args.insert("command".to_string(), "ls".to_string());

    let tool = create_tool("man_page", &args);
    assert!(tool.is_some());
    assert_eq!(tool.unwrap().name(), "man_page");
}

#[test]
fn test_create_tool_unknown() {
    let args = ToolArgs::new();
    let tool = create_tool("unknown_tool", &args);
    assert!(tool.is_none());
}

#[test]
fn test_create_tool_training_data_names() {
    // Test that training data tool names map correctly
    let mut args = ToolArgs::new();

    // "get_command_help" maps to HelpOutput
    args.insert("command".to_string(), "git".to_string());
    let tool = create_tool("get_command_help", &args);
    assert!(tool.is_some());
    assert_eq!(tool.unwrap().name(), "help_output");

    // "list_similar_commands" maps to ListSimilar
    args.clear();
    args.insert("prefix".to_string(), "gi".to_string());
    let tool = create_tool("list_similar_commands", &args);
    assert!(tool.is_some());
    assert_eq!(tool.unwrap().name(), "list_similar");
}

#[test]
fn test_create_tool_missing_args() {
    let args = ToolArgs::new();
    let tool = create_tool("which_binary", &args);
    assert!(tool.is_none());
}

#[test]
fn test_agentic_correct_immediate_answer() {
    // Simulate model that returns answer immediately
    let result = agentic_correct(
        "gti status",
        Shell::Bash,
        None,
        |_: &str| "git status".to_string(),
        tools(Shell::Bash),
    );

    assert_eq!(result.command, "git status");
    assert_eq!(result.iterations, 1);
    assert!(!result.tools_used);
}

#[test]
fn test_agentic_correct_with_answer_tags() {
    let result = agentic_correct(
        "dcoker ps",
        Shell::Bash,
        None,
        |_: &str| "<answer>docker ps</answer>".to_string(),
        tools(Shell::Bash),
    );

    assert_eq!(result.command, "docker ps");
    assert_eq!(result.iterations, 1);
    assert!(!result.tools_used);
}

#[test]
fn test_agentic_correct_with_tool_then_answer() {
    let mut call_count = 0;

    let result = agentic_correct(
        "gti status",
        Shell::Bash,
        None,
        |_: &str| {
            call_count += 1;
            if call_count == 1 {
                // First call: request a tool (using training data format with "arguments")
                "<tool_call>{\"name\": \"which_binary\", \"arguments\": {\"command\": \"git\"}}</tool_call>"
                    .to_string()
            } else {
                // Second call: provide answer
                "git status".to_string()
            }
        },
        tools(Shell::Bash),
    );

    assert_eq!(result.command, "git status");
    assert_eq!(result.iterations, 2);
    assert!(result.tools_used);
}

#[test]
fn test_agentic_correct_max_iterations() {
    // Simulate model that keeps requesting tools (using training data format)
    let result = agentic_correct(
        "test",
        Shell::Bash,
        None,
        |_: &str| {
            "<tool_call>{\"name\": \"which_binary\", \"arguments\": {\"command\": \"git\"}}</tool_call>"
                .to_string()
        },
        tools(Shell::Bash),
    );

    // Should hit max iterations and return fallback
    assert_eq!(result.iterations, MAX_ITERATIONS);
    assert!(result.tools_used);
}

#[test]
fn test_agentic_correct_with_error_context() {
    let result = agentic_correct(
        "gti status",
        Shell::Bash,
        Some("command not found: gti"),
        |prompt: &str| {
            // Verify error is in prompt
            assert!(prompt.contains("command not found"));
            "git status".to_string()
        },
        tools(Shell::Bash),
    );

    assert_eq!(result.command, "git status");
}

#[test]
fn test_agentic_correct_unknown_tool() {
    let mut call_count = 0;

    let result = agentic_correct(
        "test",
        Shell::Bash,
        None,
        |_: &str| {
            call_count += 1;
            if call_count == 1 {
                // Request unknown tool
                "<tool_call>{\"name\": \"unknown_tool\", \"args\": {}}</tool_call>".to_string()
            } else {
                // Should continue and provide answer
                "corrected command".to_string()
            }
        },
        tools(Shell::Bash),
    );

    assert_eq!(result.command, "corrected command");
    assert!(result.tools_used);
}

#[test]
fn test_fallback_correction() {
    let result = fallback_correction("gti status");
    assert_eq!(result, "gti status");
}

#[test]
fn exhausted_loop_returns_the_input() {
    let mut asked = 0;
    let mut ran = 0;
    let result = agentic_correct(
        "gti status",
        Shell::Bash,
        None,
        |_: &str| {
            asked += 1;
            "<tool_call>{\"name\": \"which_binary\", \"arguments\": {\"command\": \"git\"}}</tool_call>"
                .to_string()
        },
        |_: &Tool| {
            ran += 1;
            ToolResult::success("/usr/bin/git".to_string())
        },
    );
    assert_eq!(
        result,
        AgentResult { command: "gti status".to_string(), iterations: 3, tools_used: true }
    );
    assert_eq!(asked, 3);
    assert_eq!(ran, 3);
}

#[test]
fn tool_result_reaches_the_next_prompt() {
    let mut prompts: Vec<String> = Vec::new();
    let result = agentic_correct(
        "gti status",
        Shell::Bash,
        None,
        |prompt: &str| {
            prompts.push(prompt.to_string());
            if prompts.len() == 1 {
                "<tool_call>{\"name\":\"which_binary\",\"arguments\":{\"command\":\"git\"}}</tool_call>"
                    .to_string()
            } else {
                "git status".to_string()
            }
        },
        tools(Shell::Bash),
    );
    assert_eq!(
        result,
        AgentResult { command: "git status".to_string(), iterations: 2, tools_used: true }
    );
    assert_eq!(prompts.len(), 2);
    assert!(prompts[1].starts_with(&prompts[0][..prompts[0].len() - "<|im_start|>assistant\n".len()]));
    assert!(prompts[1].ends_with(
        "<|im_start|>assistant\n<tool_call>{\"name\":\"which_binary\",\"arguments\":{\"command\":\"git\"}}</tool_call><|im_end|>\n<|im_start|>tool\n<tool_response>\n/usr/bin/git\n</tool_response><|im_end|>\n<|im_start|>assistant\n"
    ));
}

#[test]
fn unknown_tool_is_reported_to_the_model() {
    let step = Agent::start("test", Shell::Bash, None);
    let agent = match step {
        AgentStep::Generate(agent, _) => agent,
        other => panic!("expected a prompt, got {:?}", other),
    };
    match agent.on_completion("<tool_call>{\"name\": \"frobnicate\"}</tool_call>") {
        AgentStep::Generate(_, prompt) => {
            assert!(prompt.ends_with(
                "<|im_start|>tool\n<tool_response>\nUnknown tool: frobnicate\n</tool_response><|im_end|>\n<|im_start|>assistant\n"
            ));
        }
        other => panic!("expected a prompt, got {:?}", other),
    }
}

#[test]
fn missing_argument_is_an_unknown_tool() {
    let step = Agent::start("test", Shell::Bash, None);
    let agent = match step {
        AgentStep::Generate(agent, _) => agent,
        other => panic!("expected a prompt, got {:?}", other),
    };
    match agent.on_completion("<tool_call>{\"name\": \"which_binary\", \"arguments\": {\"prefix\": \"g\"}}</tool_call>") {
        AgentStep::Generate(_, prompt) => {
            assert!(prompt.contains("Unknown tool: which_binary"));
        }
        other => panic!("expected a prompt, got {:?}", other),
    }
}

#[test]
fn tool_output_is_cut_for_the_model() {
    let long = "x".repeat(250);
    assert_eq!(truncate_output(&long), format!("{}...", "x".repeat(200)));
    assert_eq!(truncate_output(&"y".repeat(200)), "y".repeat(200));
    assert_eq!(truncate_output(""), "");
    // Two hundred characters, not bytes.
    assert_eq!(truncate_output(&"é".repeat(200)), "é".repeat(200));
    assert_eq!(truncate_output(&"é".repeat(201)), format!("{}...", "é".repeat(200)));

    let step = Agent::start("test", Shell::Bash, None);
    let agent = match step {
        AgentStep::Generate(agent, _) => agent,
        other => panic!("expected a prompt, got {:?}", other),
    };
    let pending = match agent
        .on_completion("<tool_call>{\"name\":\"help_output\",\"arguments\":{\"command\":\"git\"}}</tool_call>")
    {
        AgentStep::RunTool(pending, tool) => {
            assert_eq!(tool, Tool::HelpOutput { command: "git".to_string() });
            pending
        }
        other => panic!("expected a tool, got {:?}", other),
    };
    match pending.on_tool_result(ToolResult::success(long)) {
        AgentStep::Generate(_, prompt) => {
            assert!(prompt.contains(&format!("<tool_response>\n{}...\n</tool_response>", "x".repeat(200))));
        }
        other => panic!("expected a prompt, got {:?}", other),
    }
}

#[test]
fn aliases_resolve_to_one_kind() {
    assert_eq!(resolve_alias("get_command_help"), Some(ToolKind::HelpOutput));
    assert_eq!(resolve_alias("help_output"), Some(ToolKind::HelpOutput));
    assert_eq!(resolve_alias("list_similar_commands"), Some(ToolKind::ListSimilar));
    assert_eq!(resolve_alias("list_similar"), Some(ToolKind::ListSimilar));
    assert_eq!(resolve_alias("which_binary"), Some(ToolKind::WhichBinary));
    assert_eq!(resolve_alias("get_env_var"), Some(ToolKind::GetEnvVar));
    assert_eq!(resolve_alias("man_page"), Some(ToolKind::ManPage));
    assert_eq!(resolve_alias("Which_Binary"), None);
    let mut args = ToolArgs::new();
    args.insert("name".to_string(), "HOME".to_string());
    assert_eq!(create_tool("get_env_var", &args), Some(Tool::GetEnvVar { name: "HOME".to_string() }));
}

#[test]
fn conversation_starts_with_one_system_message() {
    let mut ctx = Context::new(Shell::Fish);
    ctx.add_error("boom");
    ctx.add_user("gti");
    ctx.add_error("first");
    ctx.add_error("second");
    ctx.add_assistant("hello");
    ctx.add_error("third");
    let messages = ctx.messages();
    assert_eq!(messages.len(), 5);
    assert_eq!(messages.iter().filter(|m| m.role == MessageRole::System).count(), 1);
    assert_eq!(messages[0].role, MessageRole::System);
    assert!(messages[0].content.starts_with("You are a shell command assistant for fish. Your task"));
    assert!(messages[0].content.ends_with("<tool_call>\n{\"name\": \"tool_name\", \"arguments\": {\"param\": \"value\"}}\n</tool_call>"));
    assert_eq!(
        messages[1],
        Message { role: MessageRole::User, content: "Error: boom".to_string() }
    );
    assert_eq!(
        messages[2],
        Message {
            role: MessageRole::User,
            content: "Shell: fish\nInput: gti\nError: first\nError: second".to_string()
        }
    );
    assert_eq!(
        messages[4],
        Message { role: MessageRole::User, content: "Error: third".to_string() }
    );
}

#[test]
fn prompt_is_exact() {
    let mut ctx = Context::new(Shell::Bash);
    ctx.add_user("gti status");
    ctx.add_assistant("a");
    ctx.add_tool_result("x", &ToolResult::failure("nope".to_string()));
    let system = ctx.messages()[0].content.clone();
    assert_eq!(
        ctx.build_prompt(),
        format!(
            "<|im_start|>system\n{}<|im_end|>\n<|im_start|>user\nShell: bash\nInput: gti status<|im_end|>\n<|im_start|>assistant\na<|im_end|>\n<|im_start|>tool\n<tool_response>\nnope\n</tool_response><|im_end|>\n<|im_start|>assistant\n",
            system
        )
    );
}

#[test]
fn test_agent_loop_with_mock_model_direct_answer() {
    // Simulate a model that returns a direct answer
    let result = agentic_correct(
        "gti status",
        Shell::Bash,
        None,
        |_prompt: &str| "git status".to_string(),
        tools(Shell::Bash),
    );

    assert_eq!(result.command, "git status");
    assert_eq!(result.iterations, 1);
    assert!(!result.tools_used);
}

#[test]
fn test_agent_loop_with_mock_model_tool_call_then_answer() {
    let mut iteration = 0;

    let result = agentic_correct(
        "gti status",
        Shell::Bash,
        None,
        |prompt: &str| {
            iteration += 1;

            match iteration {
                1 => {
                    // First iteration: request which_binary tool
                    "<tool_call>{\"name\": \"which_binary\", \"args\": {\"command\": \"git\"}}</tool_call>"
                        .to_string()
                }
                _ => {
                    // After getting tool result, the prompt should contain the result
                    assert!(
                        prompt.contains("tool_result") || prompt.contains("which_binary"),
                        "Prompt should contain tool result"
                    );
                    // Return answer
                    "git status".to_string()
                }
            }
        },
        tools(Shell::Bash),
    );

    assert_eq!(result.command, "git status");
    assert_eq!(result.iterations, 2);
    assert!(result.tools_used);
}

#[test]
fn test_agent_loop_respects_max_iterations() {
    // Model that always requests a tool (should be stopped at MAX_ITERATIONS)
    let result = agentic_correct(
        "test command",
        Shell::Bash,
        None,
        |_: &str| {
            "<tool_call>{\"name\": \"which_binary\", \"args\": {\"command\": \"test\"}}</tool_call>"
                .to_string()
        },
        tools(Shell::Bash),
    );

    assert_eq!(result.iterations, MAX_ITERATIONS);
    assert!(result.tools_used);
}

#[test]
fn test_agent_context_includes_error() {
    let result = agentic_correct(
        "gti status",
        Shell::Bash,
        Some("command not found: gti"),
        |prompt: &str| {
            // Verify the prompt includes the error message
            assert!(
                prompt.contains("command not found"),
                "Prompt should include error message"
            );
            "git status".to_string()
        },
        tools(Shell::Bash),
    );

    assert_eq!(result.command, "git status");
}

#[test]
fn test_agent_context_includes_shell() {
    let shells = [Shell::Bash, Shell::Zsh, Shell::Fish, Shell::PowerShell];

    for shell in shells {
        let result = agentic_correct(
            "test",
            shell,
            None,
            |prompt: &str| {
                // Verify the prompt includes the shell type
                let shell_str = shell.to_string();
                assert!(
                    prompt.to_lowercase().contains(&shell_str.to_lowercase()),
                    "Prompt should include shell: {}. Got: {}",
                    shell_str,
                    prompt
                );
                "test".to_string()
            },
            tools(shell),
        );

        assert_eq!(result.iterations, 1);
    }
}

#[test]
fn test_agent_handles_multiple_tool_calls() {
    let mut iteration = 0;

    let result = agentic_correct(
        "gti status",
        Shell::Bash,
        None,
        |_prompt: &str| {
            iteration += 1;

            match iteration {
                1 => {
                    // First: check if git exists
                    "<tool_call>{\"name\": \"which_binary\", \"args\": {\"command\": \"git\"}}</tool_call>"
                        .to_string()
                }
                2 => {
                    // Second: list similar commands
                    "<tool_call>{\"name\": \"list_similar\", \"args\": {\"prefix\": \"gi\"}}</tool_call>"
                        .to_string()
                }
                _ => {
                    // Finally: return answer
                    "git status".to_string()
                }
            }
        },
        tools(Shell::Bash),
    );

    assert_eq!(result.command, "git status");
    assert_eq!(result.iterations, 3);
    assert!(result.tools_used);
}

#[test]
fn test_agent_handles_unknown_tool() {
    let mut iteration = 0;

    let result = agentic_correct(
        "test",
        Shell::Bash,
        None,
        |_: &str| {
            iteration += 1;

            match iteration {
                1 => {
                    // Request an unknown tool
                    "<tool_call>{\"name\": \"nonexistent_tool\", \"args\": {}}</tool_call>".to_string()
                }
                _ => {
                    // Return answer after failed tool
                    "corrected".to_string()
                }
            }
        },
        tools(Shell::Bash),
    );

    assert_eq!(result.command, "corrected");
    assert!(result.tools_used);
}

#[test]
fn test_context_shell_in_system_prompt() {
    for shell in [Shell::Bash, Shell::Zsh, Shell::Fish] {
        let ctx = Context::new(shell);
        let prompt = ctx.build_prompt();

        assert!(
            prompt.contains(&shell.to_string()),
            "System prompt should mention shell: {}",
            shell.to_string()
        );
    }
}

#[test]
fn test_parser_integration_with_agent() {
    // Test that parser output matches what agent expects
    let tool_call =
        "<tool_call>{\"name\": \"which_binary\", \"args\": {\"command\": \"git\"}}</tool_call>";
    let response = parse_response(tool_call);

    match response {
        ModelResponse::ToolCall { name, args } => {
            assert_eq!(name, "which_binary");
            assert_eq!(args.get("command").unwrap(), "git");
        }
        _ => panic!("Expected ToolCall"),
    }
}

#[test]
fn test_parser_final_answer_variations() {
    let variations = vec![
        ("git status", "git status"),
        ("<answer>git status</answer>", "git status"),
        ("  git status  ", "git status"),
        ("git status<|im_end|>", "git status"),
    ];

    for (input, expected) in variations {
        let response = parse_response(input);
        match response {
            ModelResponse::FinalAnswer(answer) => {
                assert_eq!(answer, expected, "Input: {}", input);
            }
            _ => panic!("Expected FinalAnswer for input: {}", input),
        }
    }
}

#[test]
fn test_agent_with_real_env_var_tool() {
    let mut iteration = 0;

    let result = agentic_correct(
        "echo $PATH",
        Shell::Bash,
        None,
        |prompt: &str| {
            iteration += 1;

            match iteration {
                1 => {
                    // Request env var
                    "<tool_call>{\"name\": \"get_env_var\", \"args\": {\"name\": \"PATH\"}}</tool_call>"
                        .to_string()
                }
                _ => {
                    // Verify we got PATH in the context
                    assert!(
                        prompt.contains("PATH") || prompt.contains("/"),
                        "Should have PATH info in context"
                    );
                    "echo $PATH".to_string()
                }
            }
        },
        tools(Shell::Bash),
    );

    assert!(result.tools_used);
    assert_eq!(result.iterations, 2);
}

#[test]
fn test_agent_with_real_which_tool() {
    let mut iteration = 0;

    let result = agentic_correct(
        "lss",
        Shell::Bash,
        None,
        |prompt: &str| {
            iteration += 1;

            match iteration {
                1 => {
                    // Check if ls exists
                    "<tool_call>{\"name\": \"which_binary\", \"args\": {\"command\": \"ls\"}}</tool_call>"
                        .to_string()
                }
                _ => {
                    // Should have path to ls in context
                    assert!(
                        prompt.contains("/bin") || prompt.contains("ls"),
                        "Should have ls path in context"
                    );
                    "ls".to_string()
                }
            }
        },
        tools(Shell::Bash),
    );

    assert!(result.tools_used);
    assert_eq!(result.command, "ls");
}
