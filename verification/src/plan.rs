//! Which commands a tool tries on which shell, in which order, and what the
//! first one that yields output makes the tool report.

use vstd::prelude::*;
use crate::args::texts;
use crate::host::{HostRequest, RequestView, request_views};
use crate::report::{help_report, help_report_of, man_brief_report, man_brief_report_of,
    man_page_report, man_page_report_of, similar_report, similar_report_of, which_report,
    which_report_of};
use crate::text::{concat2, concat3};
use crate::tools::{Shell, Tool, ToolResult, ToolResultView, ToolView, succeeded};

verus! {

/// The request to run `program` with `args`.
pub open spec fn run_of(program: Seq<char>, args: Seq<Seq<char>>, timeout_ms: u64) -> RequestView {
    RequestView::Run { program, args, timeout_ms }
}

/// The requests that run a PowerShell script: with `pwsh` first, then with
/// `powershell`.
pub open spec fn powershell_of(script: Seq<char>, timeout_ms: u64) -> Seq<RequestView> {
    seq![
        run_of("pwsh"@, seq!["-NoProfile"@, "-Command"@, script], timeout_ms),
        run_of("powershell"@, seq!["-NoProfile"@, "-Command"@, script], timeout_ms),
    ]
}

/// The request that runs a bash script.
pub open spec fn bash_of(script: Seq<char>, timeout_ms: u64) -> RequestView {
    run_of("bash"@, seq!["-c"@, script], timeout_ms)
}

/// What the help tool tries for a command.
pub open spec fn help_plan(shell: Shell, command: Seq<char>, timeout_ms: u64) -> Seq<RequestView> {
    match shell {
        Shell::Bash | Shell::Zsh | Shell::Fish => seq![
            run_of(command, seq!["--help"@], timeout_ms),
            run_of(command, seq!["-h"@], timeout_ms),
        ],
        Shell::PowerShell => powershell_of(
            "Get-Help "@ + command + " | Select-Object -First 30"@,
            timeout_ms,
        ).push(run_of(command, seq!["--help"@], timeout_ms)),
        Shell::Cmd => seq![
            run_of(command, seq!["/?"@], timeout_ms),
            run_of(command, seq!["--help"@], timeout_ms),
        ],
    }
}

/// What the which tool tries for a command.
pub open spec fn which_plan(shell: Shell, command: Seq<char>, timeout_ms: u64) -> Seq<
    RequestView,
> {
    match shell {
        Shell::Bash | Shell::Zsh => seq![run_of("which"@, seq![command], timeout_ms)],
        Shell::Fish => seq![run_of("type"@, seq!["-P"@, command], timeout_ms)],
        Shell::PowerShell => powershell_of(
            "(Get-Command "@ + command + " -ErrorAction SilentlyContinue).Source"@,
            timeout_ms,
        ),
        Shell::Cmd => seq![run_of("where"@, seq![command], timeout_ms)],
    }
}

/// What the list tool tries for a prefix: the shell's own completion, and
/// where the shell has none or it yields nothing, a scan of the search path.
pub open spec fn similar_plan(shell: Shell, prefix: Seq<char>, timeout_ms: u64) -> Seq<
    RequestView,
> {
    match shell {
        Shell::Bash | Shell::Zsh => seq![
            bash_of("compgen -c "@ + prefix, timeout_ms),
            RequestView::ScanPath,
        ],
        Shell::Fish => seq![
            run_of("fish"@, seq!["-c"@, "complete -C '"@ + prefix + "'"@], timeout_ms),
            RequestView::ScanPath,
        ],
        Shell::PowerShell => powershell_of(
            "Get-Command '"@ + prefix
                + "*' -ErrorAction SilentlyContinue | Select-Object -ExpandProperty Name"@,
            timeout_ms,
        ),
        Shell::Cmd => seq![RequestView::ScanPath],
    }
}

/// What the manual tool tries for a command: nothing on a shell of Windows;
/// else the one-line description, then the whole page.
pub open spec fn man_plan(shell: Shell, command: Seq<char>, timeout_ms: u64) -> Seq<RequestView> {
    match shell {
        Shell::PowerShell | Shell::Cmd => seq![],
        _ => seq![
            run_of("man"@, seq!["-f"@, command], timeout_ms),
            run_of("man"@, seq![command], timeout_ms),
        ],
    }
}

/// What a tool tries on a shell, in order: each request is made only where
/// the one before it yielded nothing.
pub open spec fn plan_of(shell: Shell, tool: ToolView, timeout_ms: u64) -> Seq<RequestView> {
    match tool {
        ToolView::HelpOutput { command } => help_plan(shell, command, timeout_ms),
        ToolView::WhichBinary { command } => which_plan(shell, command, timeout_ms),
        ToolView::ListSimilar { prefix } => similar_plan(shell, prefix, timeout_ms),
        ToolView::GetEnvVar { name } => seq![RequestView::ReadEnv { name }],
        ToolView::ManPage { command } => man_plan(shell, command, timeout_ms),
    }
}

/// What a tool reports where it can try nothing.
pub open spec fn unavailable() -> ToolResultView {
    crate::tools::failed("man pages not available on this platform"@)
}

/// What a tool reports of the output that its request number `attempt` yielded.
pub open spec fn finished(tool: ToolView, attempt: int, output: Seq<char>) -> ToolResultView {
    match tool {
        ToolView::HelpOutput { .. } => help_report_of(output),
        ToolView::WhichBinary { command } => which_report_of(command, output),
        ToolView::ListSimilar { .. } => similar_report_of(output),
        ToolView::GetEnvVar { .. } => succeeded(output),
        ToolView::ManPage { command } => if attempt == 0 {
            man_brief_report_of(command, output)
        } else {
            man_page_report_of(command, output)
        },
    }
}

/// A list of one string.
fn list1(a: &str) -> (r: Vec<String>)
    ensures
        texts(r@) == seq![a@],
{
    let mut r: Vec<String> = Vec::new();
    r.push(a.to_owned());
    assert(texts(r@) =~= seq![a@]);
    r
}

/// A list of two strings.
fn list2(a: &str, b: &str) -> (r: Vec<String>)
    ensures
        texts(r@) == seq![a@, b@],
{
    let mut r: Vec<String> = Vec::new();
    r.push(a.to_owned());
    r.push(b.to_owned());
    assert(texts(r@) =~= seq![a@, b@]);
    r
}

/// A list of three strings.
fn list3(a: &str, b: &str, c: &str) -> (r: Vec<String>)
    ensures
        texts(r@) == seq![a@, b@, c@],
{
    let mut r: Vec<String> = Vec::new();
    r.push(a.to_owned());
    r.push(b.to_owned());
    r.push(c.to_owned());
    assert(texts(r@) =~= seq![a@, b@, c@]);
    r
}

/// The request to run `program` with `args`.
fn run(program: &str, args: Vec<String>, timeout_ms: u64) -> (r: HostRequest)
    ensures
        r@ == run_of(program@, texts(args@), timeout_ms),
{
    HostRequest::Run { program: program.to_owned(), args, timeout_ms }
}

/// Adds the requests that run a PowerShell script.
fn push_powershell(plan: &mut Vec<HostRequest>, script: &str, timeout_ms: u64)
    ensures
        request_views(final(plan)@) == request_views(old(plan)@) + powershell_of(script@, timeout_ms),
{
    plan.push(run("pwsh", list3("-NoProfile", "-Command", script), timeout_ms));
    plan.push(run("powershell", list3("-NoProfile", "-Command", script), timeout_ms));
    assert(request_views(plan@) =~= request_views(old(plan)@) + powershell_of(script@, timeout_ms));
}

/// Adds one request.
fn push_one(plan: &mut Vec<HostRequest>, request: HostRequest)
    ensures
        request_views(final(plan)@) == request_views(old(plan)@).push(request@),
{
    plan.push(request);
    assert(request_views(plan@) =~= request_views(old(plan)@).push(request@));
}

/// What a tool tries on a shell, in order.
pub fn plan(shell: Shell, tool: &Tool, timeout_ms: u64) -> (r: Vec<HostRequest>)
    ensures
        request_views(r@) == plan_of(shell, tool@, timeout_ms),
{
    let mut r: Vec<HostRequest> = Vec::new();
    assert(request_views(r@) =~= Seq::<RequestView>::empty());
    match tool {
        Tool::HelpOutput { command } => {
            let c = command.as_str();
            match shell {
                Shell::Bash | Shell::Zsh | Shell::Fish => {
                    push_one(&mut r, run(c, list1("--help"), timeout_ms));
                    push_one(&mut r, run(c, list1("-h"), timeout_ms));
                },
                Shell::PowerShell => {
                    let script = concat3("Get-Help ", c, " | Select-Object -First 30");
                    push_powershell(&mut r, script.as_str(), timeout_ms);
                    push_one(&mut r, run(c, list1("--help"), timeout_ms));
                },
                Shell::Cmd => {
                    push_one(&mut r, run(c, list1("/?"), timeout_ms));
                    push_one(&mut r, run(c, list1("--help"), timeout_ms));
                },
            }
        },
        Tool::WhichBinary { command } => {
            let c = command.as_str();
            match shell {
                Shell::Bash | Shell::Zsh => {
                    push_one(&mut r, run("which", list1(c), timeout_ms));
                },
                Shell::Fish => {
                    push_one(&mut r, run("type", list2("-P", c), timeout_ms));
                },
                Shell::PowerShell => {
                    let script = concat3(
                        "(Get-Command ",
                        c,
                        " -ErrorAction SilentlyContinue).Source",
                    );
                    push_powershell(&mut r, script.as_str(), timeout_ms);
                },
                Shell::Cmd => {
                    push_one(&mut r, run("where", list1(c), timeout_ms));
                },
            }
        },
        Tool::ListSimilar { prefix } => {
            let p = prefix.as_str();
            match shell {
                Shell::Bash | Shell::Zsh => {
                    let script = concat2("compgen -c ", p);
                    push_one(&mut r, run("bash", list2("-c", script.as_str()), timeout_ms));
                    push_one(&mut r, HostRequest::ScanPath);
                },
                Shell::Fish => {
                    let script = concat3("complete -C '", p, "'");
                    push_one(&mut r, run("fish", list2("-c", script.as_str()), timeout_ms));
                    push_one(&mut r, HostRequest::ScanPath);
                },
                Shell::PowerShell => {
                    let script = concat3(
                        "Get-Command '",
                        p,
                        "*' -ErrorAction SilentlyContinue | Select-Object -ExpandProperty Name",
                    );
                    push_powershell(&mut r, script.as_str(), timeout_ms);
                },
                Shell::Cmd => {
                    push_one(&mut r, HostRequest::ScanPath);
                },
            }
        },
        Tool::GetEnvVar { name } => {
            push_one(&mut r, HostRequest::ReadEnv { name: name.clone() });
        },
        Tool::ManPage { command } => {
            let c = command.as_str();
            match shell {
                Shell::PowerShell | Shell::Cmd => {},
                _ => {
                    push_one(&mut r, run("man", list2("-f", c), timeout_ms));
                    push_one(&mut r, run("man", list1(c), timeout_ms));
                },
            }
        },
    }
    assert(request_views(r@) =~= plan_of(shell, tool@, timeout_ms));
    r
}

/// What a tool reports of the output that its request number `attempt` yielded.
pub fn finish(tool: &Tool, attempt: usize, output: &str) -> (r: ToolResult)
    ensures
        r@ == finished(tool@, attempt as int, output@),
{
    match tool {
        Tool::HelpOutput { .. } => help_report(output),
        Tool::WhichBinary { command } => which_report(command.as_str(), output),
        Tool::ListSimilar { .. } => similar_report(output),
        Tool::GetEnvVar { .. } => ToolResult::success(output.to_owned()),
        Tool::ManPage { command } => if attempt == 0 {
            man_brief_report(command.as_str(), output)
        } else {
            man_page_report(command.as_str(), output)
        },
    }
}

/// No tool tries more than three requests.
pub proof fn lemma_plan_is_short(shell: Shell, tool: ToolView, timeout_ms: u64)
    ensures
        plan_of(shell, tool, timeout_ms).len() <= 3,
        plan_of(shell, tool, timeout_ms).len() == 0 <==> (tool is ManPage && (shell
            == Shell::PowerShell || shell == Shell::Cmd)),
{
}

} // verus!
