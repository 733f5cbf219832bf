use fix_lib::distance::levenshtein_distance;
use fix_lib::generation::{clean_generated, OutputFilter, Style};
use fix_lib::prefetch::{
    build_wit_prompt, collect_findings, finding, format_tool_call, select_tools_for_input,
};
use fix_lib::tools::{Shell, Tool, ToolResult};

#[test]
fn edit_distances() {
    assert_eq!(levenshtein_distance("", ""), 0);
    assert_eq!(levenshtein_distance("", "git"), 3);
    assert_eq!(levenshtein_distance("git", ""), 3);
    assert_eq!(levenshtein_distance("git", "git"), 0);
    assert_eq!(levenshtein_distance("gti", "git"), 2);
    assert_eq!(levenshtein_distance("kitten", "sitting"), 3);
    assert_eq!(levenshtein_distance("flaw", "lawn"), 2);
    assert_eq!(levenshtein_distance("dcoker", "docker"), 2);
    assert_eq!(levenshtein_distance("é", "e"), 1);
    assert_eq!(levenshtein_distance("sunday", "saturday"), 3);
}

#[test]
fn tools_for_a_slip_of_git() {
    assert_eq!(
        select_tools_for_input("gti status", Shell::Bash),
        vec![
            Tool::ListSimilar { prefix: "gti".to_string() },
            Tool::WhichBinary { command: "gti".to_string() },
            Tool::WhichBinary { command: "git".to_string() },
            Tool::HelpOutput { command: "git".to_string() },
        ]
    );
}

#[test]
fn tools_for_other_inputs() {
    assert_eq!(select_tools_for_input("", Shell::Bash), vec![]);
    assert_eq!(select_tools_for_input("  \t\n", Shell::Bash), vec![]);
    assert_eq!(
        select_tools_for_input("x", Shell::Bash),
        vec![Tool::ListSimilar { prefix: "x".to_string() }]
    );
    // One character of two bytes is long enough; one edit from nothing.
    assert_eq!(
        select_tools_for_input("é", Shell::Bash),
        vec![
            Tool::ListSimilar { prefix: "é".to_string() },
            Tool::WhichBinary { command: "é".to_string() },
        ]
    );
    // The command itself is no slip of it; "pip" is two edits from "git".
    assert_eq!(
        select_tools_for_input("  git status", Shell::Zsh),
        vec![
            Tool::ListSimilar { prefix: "git".to_string() },
            Tool::WhichBinary { command: "git".to_string() },
            Tool::WhichBinary { command: "pip".to_string() },
            Tool::HelpOutput { command: "pip".to_string() },
        ]
    );
    assert_eq!(
        select_tools_for_input("docker ps", Shell::Zsh),
        vec![
            Tool::ListSimilar { prefix: "docker".to_string() },
            Tool::WhichBinary { command: "docker".to_string() },
        ]
    );
    // The first well-known command that is near wins: "nip" is two edits from
    // "git", from "npm" and from "pip".
    assert_eq!(
        select_tools_for_input("nip install", Shell::Bash),
        vec![
            Tool::ListSimilar { prefix: "nip".to_string() },
            Tool::WhichBinary { command: "nip".to_string() },
            Tool::WhichBinary { command: "git".to_string() },
            Tool::HelpOutput { command: "git".to_string() },
        ]
    );
    assert_eq!(
        select_tools_for_input("nmp install", Shell::Bash),
        vec![
            Tool::ListSimilar { prefix: "nmp".to_string() },
            Tool::WhichBinary { command: "nmp".to_string() },
            Tool::WhichBinary { command: "npm".to_string() },
            Tool::HelpOutput { command: "npm".to_string() },
        ]
    );
    assert_eq!(
        select_tools_for_input("Get-Chlid", Shell::PowerShell),
        vec![
            Tool::ListSimilar { prefix: "Get-Chlid".to_string() },
            Tool::WhichBinary { command: "Get-Chlid".to_string() },
            Tool::HelpOutput { command: "Get-Chlid".to_string() },
        ]
    );
    assert_eq!(
        select_tools_for_input("Get-Chlid", Shell::Bash),
        vec![
            Tool::ListSimilar { prefix: "Get-Chlid".to_string() },
            Tool::WhichBinary { command: "Get-Chlid".to_string() },
        ]
    );
}

#[test]
fn tool_calls_are_shown_with_their_subject() {
    assert_eq!(format_tool_call(&Tool::WhichBinary { command: "git".to_string() }), "which_binary(git)");
    assert_eq!(format_tool_call(&Tool::ListSimilar { prefix: "gi".to_string() }), "list_similar(gi)");
    assert_eq!(format_tool_call(&Tool::HelpOutput { command: "git".to_string() }), "help_output(git)");
    assert_eq!(format_tool_call(&Tool::GetEnvVar { name: "PATH".to_string() }), "get_env_var(PATH)");
    assert_eq!(format_tool_call(&Tool::ManPage { command: "ls".to_string() }), "man_page(ls)");
}

#[test]
fn findings_keep_what_was_found() {
    let which = Tool::WhichBinary { command: "git".to_string() };
    let ok = ToolResult::success("/usr/bin/git".to_string());
    assert_eq!(
        finding(&which, &ok),
        Some(("which_binary(git)".to_string(), "/usr/bin/git".to_string()))
    );
    assert_eq!(finding(&which, &ToolResult::success(String::new())), None);
    assert_eq!(finding(&which, &ToolResult::failure("no".to_string())), None);
    let long = ToolResult::success("x".repeat(300));
    assert_eq!(
        finding(&which, &long),
        Some(("which_binary(git)".to_string(), format!("{}...", "x".repeat(200))))
    );
    let tools = vec![which.clone(), Tool::ListSimilar { prefix: "g".to_string() }, which];
    let results = vec![ok.clone(), ToolResult::failure("no".to_string()), ok];
    assert_eq!(collect_findings(&tools, &results).len(), 2);
    assert_eq!(collect_findings(&tools, &vec![]), vec![]);
}

#[test]
fn wit_prompt_is_exact() {
    assert_eq!(
        build_wit_prompt("bash", "gti status", &vec![]),
        "<|im_start|>system\nYou are a shell command assistant for bash. Use the provided tool results to generate the correct command. /no_think<|im_end|>\n<|im_start|>user\nInput: gti status\n\n<|im_end|>\n<|im_start|>assistant\n"
    );
    let findings = vec![
        ("which_binary(git)".to_string(), "/usr/bin/git".to_string()),
        ("list_similar(gti)".to_string(), "gtk-launch".to_string()),
    ];
    assert_eq!(
        build_wit_prompt("fish", "gti", &findings),
        "<|im_start|>system\nYou are a shell command assistant for fish. Use the provided tool results to generate the correct command. /no_think<|im_end|>\n<|im_start|>user\nInput: gti\n\nTool results:\n- which_binary(git): /usr/bin/git\n- list_similar(gti): gtk-launch\n<|im_end|>\n<|im_start|>assistant\n"
    );
}

#[test]
fn filter_drops_thinking_and_stops_at_the_second_line() {
    let mut filter = OutputFilter::new(Style::Fix);
    assert!(filter.feed("<think>"));
    assert!(filter.feed("well"));
    assert!(filter.feed("\n"));
    assert!(filter.feed("</think>"));
    assert!(filter.feed("\n\n"));
    assert!(filter.feed("git"));
    assert!(filter.feed(" status"));
    assert_eq!(filter.output(), "git status");
    assert!(filter.feed("\n"));
    assert!(!filter.feed("more"));
    assert_eq!(filter.output(), "git status\nmore");
    assert_eq!(filter.finish(), "git status");
}

#[test]
fn filter_stops_at_the_end_of_the_turn() {
    let mut filter = OutputFilter::new(Style::Fix);
    assert!(filter.feed("ls"));
    assert!(!filter.feed("<|im_end|>"));
    assert!(!filter.feed("x<|im_start|>"));
    assert_eq!(filter.output(), "ls");
}

#[test]
fn wit_filter_takes_ten_lines() {
    let mut filter = OutputFilter::new(Style::Wit);
    for i in 0..10 {
        assert!(filter.feed(&format!("line {}\n", i)), "line {}", i);
    }
    assert!(!filter.feed("line 10"));
}

#[test]
fn generated_output_is_cleaned_by_style() {
    assert_eq!(clean_generated(Style::Fix, "  command > git status\nrest "), "git status");
    assert_eq!(clean_generated(Style::Fix, "Command: ls"), "ls");
    // Only the first artifact is taken off.
    assert_eq!(clean_generated(Style::Fix, "command >Command: ls"), "Command: ls");
    assert_eq!(clean_generated(Style::Fix, "Output: ls"), "Output: ls");
    assert_eq!(clean_generated(Style::Fix, ""), "");
    assert_eq!(clean_generated(Style::Wit, " | git status "), "git status");
    assert_eq!(clean_generated(Style::Wit, "git status\nmore"), "git status\nmore");
}
