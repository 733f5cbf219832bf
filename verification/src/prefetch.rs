//! The single-shot way to a correction: guess from the command which tools
//! may help, run them all, and hand the model one prompt with what they found.

use vstd::prelude::*;
use vstd::string::StringExecFns;
use crate::agent::{truncate_output, truncated};
use crate::distance::{distance, edit_distance, lemma_distance_at_least};
use crate::text::{chars_of, concat3, first_word, first_word_of, has_prefix, same, starts_with,
    text_of};
use crate::tools::{Shell, Tool, ToolResult, ToolResultView, ToolView, tool_name, tool_subject};

verus! {

/// How far a word may be from a well-known command to count as a slip of it.
pub const MAX_TYPO_DISTANCE: usize = 2;

/// The well-known commands, in the order in which a word is held against them.
pub open spec fn common_commands() -> Seq<Seq<char>> {
    seq!["git"@, "docker"@, "npm"@, "cargo"@, "python"@, "pip"@, "kubectl"@, "make"@]
}

/// Whether `word` looks like a slip of `command`: it is not the command, and
/// at most two edits away from it.
pub open spec fn is_slip_of(word: Seq<char>, command: Seq<char>) -> bool {
    edit_distance(word, command) <= MAX_TYPO_DISTANCE && word != command
}

/// The first of `commands` from index `i` on that `word` looks like a slip of.
pub open spec fn slip_among(word: Seq<char>, commands: Seq<Seq<char>>, i: int) -> Option<
    Seq<char>,
>
    decreases commands.len() - i,
{
    if i < 0 || i >= commands.len() {
        None
    } else if is_slip_of(word, commands[i]) {
        Some(commands[i])
    } else {
        slip_among(word, commands, i + 1)
    }
}

/// Whether a word is the name of a PowerShell command that reads or sets.
pub open spec fn is_powershell_verb(word: Seq<char>) -> bool {
    has_prefix(word, "Get-"@) || has_prefix(word, "Set-"@)
}

/// How many bytes a word takes as UTF-8.
pub open spec fn byte_length(word: Seq<char>) -> nat {
    vstd::utf8::encode_utf8(word).len()
}

/// The tools to run before the model is asked about `input`. Nothing for an
/// input without a word. Else, for its first word: the commands that begin
/// like it; where it takes two bytes or more, its binary; where it looks like
/// a slip of a well-known command, that command's binary and help; and on a
/// shell of Windows, where it is a PowerShell verb, its help.
pub open spec fn selected_tools(input: Seq<char>, shell: Shell) -> Seq<ToolView> {
    match first_word_of(input) {
        None => seq![],
        Some(word) => {
            let base = seq![ToolView::ListSimilar { prefix: word }];
            let found = if byte_length(word) >= 2 {
                base.push(ToolView::WhichBinary { command: word })
            } else {
                base
            };
            let guessed = match slip_among(word, common_commands(), 0) {
                Some(command) => found.push(ToolView::WhichBinary { command }).push(
                    ToolView::HelpOutput { command },
                ),
                None => found,
            };
            if (shell == Shell::PowerShell || shell == Shell::Cmd) && is_powershell_verb(word) {
                guessed.push(ToolView::HelpOutput { command: word })
            } else {
                guessed
            }
        },
    }
}

/// The views of a list of tools.
pub open spec fn tool_views(tools: Seq<Tool>) -> Seq<ToolView> {
    Seq::new(tools.len(), |i: int| tools[i]@)
}

/// Whether `word` looks like a slip of `command`.
pub fn looks_like(word: &Vec<char>, command: &Vec<char>) -> (b: bool)
    ensures
        b == is_slip_of(word@, command@),
{
    proof {
        lemma_distance_at_least(word@, command@);
    }
    if word.len() > command.len() && word.len() - command.len() > MAX_TYPO_DISTANCE {
        return false;
    }
    distance(word, command) <= MAX_TYPO_DISTANCE && !same(word, command)
}

/// The well-known commands.
fn known_commands() -> (r: Vec<Vec<char>>)
    ensures
        crate::text::views(r@) == common_commands(),
{
    let mut r: Vec<Vec<char>> = Vec::new();
    r.push(chars_of("git"));
    r.push(chars_of("docker"));
    r.push(chars_of("npm"));
    r.push(chars_of("cargo"));
    r.push(chars_of("python"));
    r.push(chars_of("pip"));
    r.push(chars_of("kubectl"));
    r.push(chars_of("make"));
    assert(crate::text::views(r@) =~= common_commands());
    r
}

/// The well-known command that `word` looks like a slip of.
pub fn guess_command(word: &Vec<char>) -> (r: Option<Vec<char>>)
    ensures
        match r {
            Some(command) => slip_among(word@, common_commands(), 0) == Some(command@),
            None => slip_among(word@, common_commands(), 0) is None,
        },
{
    let commands = known_commands();
    let mut i: usize = 0;
    while i < commands.len()
        invariant
            i <= commands.len(),
            crate::text::views(commands@) == common_commands(),
            slip_among(word@, common_commands(), 0) == slip_among(
                word@,
                common_commands(),
                i as int,
            ),
        decreases commands.len() - i,
    {
        assert(crate::text::views(commands@)[i as int] == commands@[i as int]@);
        if looks_like(word, &commands[i]) {
            let found = crate::text::slice(&commands[i], 0, commands[i].len());
            assert(found@ =~= commands@[i as int]@);
            return Some(found);
        }
        i += 1;
    }
    None
}

/// Adds one tool.
fn push_tool(tools: &mut Vec<Tool>, tool: Tool)
    ensures
        tool_views(final(tools)@) == tool_views(old(tools)@).push(tool@),
{
    tools.push(tool);
    assert(tool_views(tools@) =~= tool_views(old(tools)@).push(tool@));
}

/// The tools to run before the model is asked about `input`.
pub fn select_tools_for_input(input: &str, shell: Shell) -> (r: Vec<Tool>)
    ensures
        tool_views(r@) == selected_tools(input@, shell),
{
    let mut tools: Vec<Tool> = Vec::new();
    assert(tool_views(tools@) =~= Seq::<ToolView>::empty());
    let s = chars_of(input);
    let word = match first_word(&s) {
        Some(word) => word,
        None => {
            return tools;
        },
    };
    let first = text_of(&word);
    push_tool(&mut tools, Tool::ListSimilar { prefix: first.clone() });
    let ghost base = seq![ToolView::ListSimilar { prefix: word@ }];
    assert(tool_views(tools@) =~= base);
    let bytes: usize = first.as_str().as_bytes().len();
    assert(bytes == byte_length(word@));
    if bytes >= 2 {
        push_tool(&mut tools, Tool::WhichBinary { command: first.clone() });
    }
    if let Some(command) = guess_command(&word) {
        let name = text_of(&command);
        push_tool(&mut tools, Tool::WhichBinary { command: name.clone() });
        push_tool(&mut tools, Tool::HelpOutput { command: name });
    }
    if shell.is_windows_native() {
        let get = chars_of("Get-");
        let set = chars_of("Set-");
        if starts_with(&word, &get) || starts_with(&word, &set) {
            push_tool(&mut tools, Tool::HelpOutput { command: first });
        }
    }
    tools
}

/// A tool call as it is shown to the model: the tool's name, and in brackets
/// what it was asked about.
pub open spec fn call_text_of(tool: ToolView) -> Seq<char> {
    tool_name(tool) + "("@ + tool_subject(tool) + ")"@
}

/// A tool call as it is shown to the model.
pub fn format_tool_call(tool: &Tool) -> (r: String)
    ensures
        r@ == call_text_of(tool@),
{
    let mut r = concat3(tool.name(), "(", tool.subject().as_str());
    r.append(")");
    r
}

/// What a tool's result adds to the prompt: the call and the output, cut to
/// the budget; nothing where the tool failed or found nothing.
pub open spec fn finding_of(tool: ToolView, result: ToolResultView) -> Option<
    (Seq<char>, Seq<char>),
> {
    if result.success && result.output.len() > 0 {
        Some((call_text_of(tool), truncated(result.output)))
    } else {
        None
    }
}

/// What a tool's result adds to the prompt.
pub fn finding(tool: &Tool, result: &ToolResult) -> (r: Option<(String, String)>)
    ensures
        match r {
            Some(pair) => finding_of(tool@, result@) == Some((pair.0@, pair.1@)),
            None => finding_of(tool@, result@) is None,
        },
{
    if result.success && !result.output.as_str().is_empty() {
        Some((format_tool_call(tool), truncate_output(result.output.as_str())))
    } else {
        None
    }
}

/// The views of a list of findings.
pub open spec fn finding_views(findings: Seq<(String, String)>) -> Seq<(Seq<char>, Seq<char>)> {
    Seq::new(findings.len(), |i: int| (findings[i].0@, findings[i].1@))
}

/// One finding as a line of the prompt.
pub open spec fn finding_line(finding: (Seq<char>, Seq<char>)) -> Seq<char> {
    "- "@ + finding.0 + ": "@ + finding.1 + "\n"@
}

/// The findings as lines of the prompt.
pub open spec fn finding_lines(findings: Seq<(Seq<char>, Seq<char>)>) -> Seq<char>
    decreases findings.len(),
{
    if findings.len() == 0 {
        Seq::empty()
    } else {
        finding_lines(findings.drop_last()) + finding_line(findings.last())
    }
}

/// The prompt for the single-shot correction of `input` on `shell`, with what
/// the tools found.
pub open spec fn wit_prompt_of(
    shell: Seq<char>,
    input: Seq<char>,
    findings: Seq<(Seq<char>, Seq<char>)>,
) -> Seq<char> {
    "<|im_start|>system\n"@ + "You are a shell command assistant for "@ + shell
        + ". Use the provided tool results to generate the correct command. /no_think"@
        + "<|im_end|>\n"@ + "<|im_start|>user\n"@ + "Input: "@ + input + "\n\n"@ + (
    if findings.len() > 0 {
        "Tool results:\n"@ + finding_lines(findings)
    } else {
        Seq::empty()
    }) + "<|im_end|>\n"@ + "<|im_start|>assistant\n"@
}

/// The prompt for the single-shot correction of `input` on `shell`, with what
/// the tools found.
pub fn build_wit_prompt(shell: &str, input: &str, tool_results: &Vec<(String, String)>) -> (r:
    String)
    ensures
        r@ == wit_prompt_of(shell@, input@, finding_views(tool_results@)),
{
    let mut prompt = String::new();
    prompt.append("<|im_start|>system\n");
    prompt.append("You are a shell command assistant for ");
    prompt.append(shell);
    prompt.append(". Use the provided tool results to generate the correct command. /no_think");
    prompt.append("<|im_end|>\n");
    prompt.append("<|im_start|>user\n");
    prompt.append("Input: ");
    prompt.append(input);
    prompt.append("\n\n");
    let ghost head = prompt@;
    let ghost all = finding_views(tool_results@);
    if tool_results.len() > 0 {
        prompt.append("Tool results:\n");
        let ghost listed = prompt@;
        let mut i: usize = 0;
        assert(all.take(0) =~= Seq::<(Seq<char>, Seq<char>)>::empty());
        assert(prompt@ =~= listed + finding_lines(all.take(0)));
        while i < tool_results.len()
            invariant
                i <= tool_results.len(),
                all == finding_views(tool_results@),
                prompt@ == listed + finding_lines(all.take(i as int)),
            decreases tool_results.len() - i,
        {
            let ghost before = prompt@;
            prompt.append("- ");
            prompt.append(tool_results[i].0.as_str());
            prompt.append(": ");
            prompt.append(tool_results[i].1.as_str());
            prompt.append("\n");
            proof {
                let next = all.take(i + 1);
                assert(next.drop_last() =~= all.take(i as int));
                assert(next.last() == all[i as int]);
                assert(prompt@ =~= before + finding_line(all[i as int]));
            }
            i += 1;
        }
        assert(all.take(tool_results.len() as int) =~= all);
    } else {
        assert(prompt@ =~= head + Seq::<char>::empty());
    }
    prompt.append("<|im_end|>\n");
    prompt.append("<|im_start|>assistant\n");
    assert(prompt@ =~= wit_prompt_of(shell@, input@, all));
    prompt
}

/// The findings of tools and their results, pair by pair, in their order.
pub open spec fn findings_of(tools: Seq<ToolView>, results: Seq<ToolResultView>) -> Seq<
    (Seq<char>, Seq<char>),
>
    decreases tools.len(),
{
    if tools.len() == 0 || results.len() != tools.len() {
        seq![]
    } else {
        let head = findings_of(tools.drop_last(), results.drop_last());
        match finding_of(tools.last(), results.last()) {
            Some(pair) => head.push(pair),
            None => head,
        }
    }
}

/// The views of a list of results.
pub open spec fn result_views(results: Seq<ToolResult>) -> Seq<ToolResultView> {
    Seq::new(results.len(), |i: int| results[i]@)
}

/// The findings of tools and their results, pair by pair, in their order.
pub fn collect_findings(tools: &Vec<Tool>, results: &Vec<ToolResult>) -> (r: Vec<(String, String)>)
    ensures
        finding_views(r@) == findings_of(tool_views(tools@), result_views(results@)),
{
    let mut r: Vec<(String, String)> = Vec::new();
    let mut i: usize = 0;
    let ghost ts = tool_views(tools@);
    let ghost rs = result_views(results@);
    assert(finding_views(r@) =~= Seq::<(Seq<char>, Seq<char>)>::empty());
    if tools.len() != results.len() {
        return r;
    }
    while i < tools.len()
        invariant
            i <= tools.len(),
            tools.len() == results.len(),
            ts == tool_views(tools@),
            rs == result_views(results@),
            finding_views(r@) == findings_of(ts.take(i as int), rs.take(i as int)),
        decreases tools.len() - i,
    {
        assert(ts.take(i + 1).drop_last() =~= ts.take(i as int));
        assert(rs.take(i + 1).drop_last() =~= rs.take(i as int));
        assert(ts.take(i + 1).last() == tools@[i as int]@);
        assert(rs.take(i + 1).last() == results@[i as int]@);
        if let Some(pair) = finding(&tools[i], &results[i]) {
            let ghost before = finding_views(r@);
            r.push(pair);
            assert(finding_views(r@) =~= before.push((pair.0@, pair.1@)));
        }
        i += 1;
    }
    assert(ts.take(tools.len() as int) =~= ts);
    assert(rs.take(tools.len() as int) =~= rs);
    r
}

} // verus!
