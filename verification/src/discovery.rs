//! Finding out which tools the machine has and what they say they are.

use vstd::prelude::*;
use crate::cache::{ToolInfo, ToolInfoView, ToolsCache};
use crate::executor::{answered, reply_views};
use crate::host::{HostReply, HostRequest, OutcomeView, ProcessOutcome, ReplyView, RequestView};
use crate::order::{insert_sorted, slot, strictly_sorted};
use crate::prefetch::byte_length;
use crate::report::capped;
use crate::text::{chars_of, has_prefix, is_str, lines_of, split_lines, starts_with, strip_suffix,
    text_of, trim, trimmed, views, without_suffix};
use crate::textmap::TextMap;

verus! {

/// How long a tool may take to say what it is, in milliseconds.
pub const HELP_TIMEOUT_MS: u64 = 200;

/// How many lines of what a tool says are read.
pub const MAX_DESCRIPTION_LINES: usize = 5;

/// Below how many bytes a line must stay to be a description.
pub const MAX_DESCRIPTION_BYTES: usize = 100;

/// How many tools are asked beyond the well-known ones.
pub const MAX_TOOLS_TO_PROCESS: usize = 50;

/// The well-known tools, which are asked first.
pub open spec fn priority_names() -> Seq<Seq<char>> {
    seq![
        "git"@,
        "docker"@,
        "kubectl"@,
        "npm"@,
        "pip"@,
        "python"@,
        "node"@,
        "cargo"@,
        "rustc"@,
        "go"@,
        "java"@,
        "mvn"@,
        "gradle"@,
        "make"@,
        "gcc"@,
        "clang"@,
        "curl"@,
        "wget"@,
    ]
}

/// The views of a list of string slices.
pub open spec fn slice_views(names: Seq<&'static str>) -> Seq<Seq<char>> {
    Seq::new(names.len(), |i: int| names[i]@)
}

/// The well-known tools, which are asked first.
pub fn priority_tools() -> (r: Vec<&'static str>)
    ensures
        slice_views(r@) == priority_names(),
{
    let mut r: Vec<&'static str> = Vec::new();
    r.push("git");
    r.push("docker");
    r.push("kubectl");
    r.push("npm");
    r.push("pip");
    r.push("python");
    r.push("node");
    r.push("cargo");
    r.push("rustc");
    r.push("go");
    r.push("java");
    r.push("mvn");
    r.push("gradle");
    r.push("make");
    r.push("gcc");
    r.push("clang");
    r.push("curl");
    r.push("wget");
    assert(slice_views(r@) =~= priority_names());
    r
}

/// Whether a tool is one of the well-known ones.
pub fn is_priority(name: &str) -> (b: bool)
    ensures
        b == priority_names().contains(name@),
{
    let known = priority_tools();
    let n = chars_of(name);
    let mut i: usize = 0;
    while i < known.len()
        invariant
            i <= known.len(),
            n@ == name@,
            slice_views(known@) == priority_names(),
            forall|k: int| 0 <= k < i ==> priority_names()[k] != name@,
        decreases known.len() - i,
    {
        assert(slice_views(known@)[i as int] == known@[i as int]@);
        if is_str(&n, known[i]) {
            assert(priority_names()[i as int] == name@);
            return true;
        }
        i += 1;
    }
    false
}

/// A tool's name, given its file's name: on Windows the file's name without
/// the first of the endings `.exe`, `.cmd`, `.bat`, `.com`, `.ps1` that it
/// has; elsewhere the file's name.
pub open spec fn tool_name_of(file_name: Seq<char>, windows: bool) -> Seq<char> {
    if !windows {
        file_name
    } else {
        match without_suffix(file_name, ".exe"@) {
            Some(bare) => bare,
            None => match without_suffix(file_name, ".cmd"@) {
                Some(bare) => bare,
                None => match without_suffix(file_name, ".bat"@) {
                    Some(bare) => bare,
                    None => match without_suffix(file_name, ".com"@) {
                        Some(bare) => bare,
                        None => match without_suffix(file_name, ".ps1"@) {
                            Some(bare) => bare,
                            None => file_name,
                        },
                    },
                },
            },
        }
    }
}

/// A tool's name, given its file's name.
pub fn get_tool_name(file_name: &str, windows: bool) -> (r: String)
    ensures
        r@ == tool_name_of(file_name@, windows),
{
    if !windows {
        return file_name.to_owned();
    }
    let s = chars_of(file_name);
    if let Some(bare) = strip_suffix(&s, ".exe") {
        return text_of(&bare);
    }
    if let Some(bare) = strip_suffix(&s, ".cmd") {
        return text_of(&bare);
    }
    if let Some(bare) = strip_suffix(&s, ".bat") {
        return text_of(&bare);
    }
    if let Some(bare) = strip_suffix(&s, ".com") {
        return text_of(&bare);
    }
    if let Some(bare) = strip_suffix(&s, ".ps1") {
        return text_of(&bare);
    }
    file_name.to_owned()
}

/// Whether a trimmed line says what a tool is: it is not empty, does not
/// state the usage, and takes fewer than a hundred bytes.
pub open spec fn is_description(line: Seq<char>) -> bool {
    line.len() > 0 && !has_prefix(line, "Usage:"@) && !has_prefix(line, "usage:"@) && byte_length(
        line,
    ) < MAX_DESCRIPTION_BYTES
}

/// The first of the lines from index `i` on that, trimmed, is a description.
pub open spec fn description_among(lines: Seq<Seq<char>>, i: int) -> Option<Seq<char>>
    decreases lines.len() - i,
{
    if i < 0 || i >= lines.len() {
        None
    } else if is_description(trimmed(lines[i])) {
        Some(trimmed(lines[i]))
    } else {
        description_among(lines, i + 1)
    }
}

/// What a tool says it is, given what it printed: the first description among
/// its first five lines.
pub open spec fn description_of(stdout: Seq<char>) -> Option<Seq<char>> {
    description_among(capped(lines_of(stdout), MAX_DESCRIPTION_LINES as nat), 0)
}

/// What a tool says it is, given what it printed.
pub fn describe(stdout: &str) -> (r: Option<String>)
    ensures
        match r {
            Some(d) => description_of(stdout@) == Some(d@),
            None => description_of(stdout@) is None,
        },
{
    let s = chars_of(stdout);
    let mut lines = split_lines(&s);
    if lines.len() > MAX_DESCRIPTION_LINES {
        proof {
            crate::text::lemma_views_take(lines@, MAX_DESCRIPTION_LINES as int);
        }
        lines.truncate(MAX_DESCRIPTION_LINES);
    }
    let ghost rows = views(lines@);
    let usage_upper = chars_of("Usage:");
    let usage_lower = chars_of("usage:");
    let mut i: usize = 0;
    while i < lines.len()
        invariant
            i <= lines.len(),
            rows == views(lines@),
            rows == capped(lines_of(stdout@), MAX_DESCRIPTION_LINES as nat),
            usage_upper@ == "Usage:"@,
            usage_lower@ == "usage:"@,
            description_among(rows, 0) == description_among(rows, i as int),
        decreases lines.len() - i,
    {
        assert(rows[i as int] == lines@[i as int]@);
        let t = trim(&lines[i]);
        if t.len() > 0 && !starts_with(&t, &usage_upper) && !starts_with(&t, &usage_lower) {
            let text = text_of(&t);
            let bytes: usize = text.as_str().as_bytes().len();
            assert(bytes == byte_length(t@));
            if bytes < MAX_DESCRIPTION_BYTES {
                return Some(text);
            }
        }
        i += 1;
    }
    None
}

/// What a tool printed, where it ran at all.
pub open spec fn printed(reply: ReplyView) -> Option<Seq<char>> {
    match reply {
        ReplyView::Process(OutcomeView::Exited { stdout, .. }) => Some(stdout),
        _ => None,
    }
}

/// What a reply tells of what a tool is.
pub open spec fn told_by(reply: ReplyView) -> Option<Seq<char>> {
    match printed(reply) {
        Some(stdout) => description_of(stdout),
        None => None,
    }
}

/// What a reply tells of what a tool is.
pub fn description_from(reply: &HostReply) -> (r: Option<String>)
    ensures
        match r {
            Some(d) => told_by(reply@) == Some(d@),
            None => told_by(reply@) is None,
        },
{
    match reply {
        HostReply::Process(ProcessOutcome::Exited { stdout, .. }) => describe(stdout.as_str()),
        _ => None,
    }
}

/// The flags that a tool is asked with, in their order.
pub open spec fn description_flags() -> Seq<Seq<char>> {
    seq!["--help"@, "-h"@, "--version"@]
}

/// What the replies to the flags tell, the first that tells something.
pub open spec fn told_among(replies: Seq<ReplyView>, i: int) -> Option<Seq<char>>
    decreases replies.len() - i,
{
    if i < 0 || i >= replies.len() {
        None
    } else {
        match told_by(replies[i]) {
            Some(d) => Some(d),
            None => told_among(replies, i + 1),
        }
    }
}

/// The request that asks the tool at `tool_path` with a flag.
pub open spec fn description_request(tool_path: Seq<char>, flag: Seq<char>) -> RequestView {
    RequestView::Run { program: tool_path, args: seq![flag], timeout_ms: HELP_TIMEOUT_MS }
}

/// Whether the replies are what `host` may answer when the tool is asked with
/// the flags, one by one in their order.
pub open spec fn answers_flags<H: FnMut(&HostRequest) -> HostReply>(
    host: H,
    tool_path: Seq<char>,
    replies: Seq<HostReply>,
) -> bool {
    &&& replies.len() <= description_flags().len()
    &&& forall|i: int|
        0 <= i < replies.len() ==> answered(
            host,
            description_request(tool_path, description_flags()[i]),
            #[trigger] replies[i],
        )
}

/// The request that asks the tool at `tool_path` with a flag.
fn ask(tool_path: &str, flag: &str) -> (r: HostRequest)
    ensures
        r@ == description_request(tool_path@, flag@),
{
    let mut args: Vec<String> = Vec::new();
    args.push(flag.to_owned());
    assert(crate::args::texts(args@) =~= seq![flag@]);
    HostRequest::Run { program: tool_path.to_owned(), args, timeout_ms: HELP_TIMEOUT_MS }
}

/// What the tool at `tool_path` says it is. The tool is run with `--help`,
/// then `-h`, then `--version`, each time for a fifth of a second at most,
/// until it says something: the result is what the first of `host`'s answers
/// tells that tells something.
pub fn extract_description<H: FnMut(&HostRequest) -> HostReply>(tool_path: &str, host: &mut H) -> (r:
    Option<String>)
    requires
        forall|request: &HostRequest| call_requires(*old(host), (request,)),
    ensures
        *final(host) == *old(host),
        exists|replies: Seq<HostReply>|
            answers_flags(*old(host), tool_path@, replies) && match r {
                Some(d) => told_among(reply_views(replies), 0) == Some(d@),
                None => replies.len() == 3 && told_among(reply_views(replies), 0) is None,
            },
{
    let first = host(&ask(tool_path, "--help"));
    assert(answered(*old(host), description_request(tool_path@, "--help"@), first));
    if let Some(d) = description_from(&first) {
        proof {
            let replies = seq![first];
            assert(reply_views(replies)[0] == first@);
            assert(told_among(reply_views(replies), 0) == Some(d@));
            assert(answers_flags(*old(host), tool_path@, replies));
        }
        return Some(d);
    }
    let second = host(&ask(tool_path, "-h"));
    assert(answered(*old(host), description_request(tool_path@, "-h"@), second));
    if let Some(d) = description_from(&second) {
        proof {
            let replies = seq![first, second];
            assert(reply_views(replies)[0] == first@);
            assert(reply_views(replies)[1] == second@);
            assert(told_among(reply_views(replies), 1) == Some(d@));
            assert(told_among(reply_views(replies), 0) == Some(d@));
            assert(answers_flags(*old(host), tool_path@, replies));
        }
        return Some(d);
    }
    let third = host(&ask(tool_path, "--version"));
    assert(answered(*old(host), description_request(tool_path@, "--version"@), third));
    let r = description_from(&third);
    proof {
        let replies = seq![first, second, third];
        let all = reply_views(replies);
        assert(all[0] == first@);
        assert(all[1] == second@);
        assert(all[2] == third@);
        assert(told_among(all, 3) is None);
        assert(told_among(all, 2) == told_by(third@));
        assert(told_among(all, 1) == told_by(third@));
        assert(told_among(all, 0) == told_by(third@));
        assert(answers_flags(*old(host), tool_path@, replies));
    }
    r
}

/// A file that can be executed: where it lies, and the name of the tool.
#[derive(Debug, Clone, PartialEq, Eq)]
pub struct Executable {
    pub path: String,
    pub name: String,
}

/// Whether a tool of that name stands among the first `n` executables.
pub open spec fn named_before(executables: Seq<Executable>, n: int, name: Seq<char>) -> bool {
    exists|j: int| 0 <= j < n && (#[trigger] executables[j]).name@ == name
}

/// Whether the executable at index `i` is the first of its name.
pub open spec fn is_first_of_name(executables: Seq<Executable>, i: int) -> bool {
    !named_before(executables, i, executables[i].name@)
}

/// Of the first `n` executables those that are the first of their name, in
/// their order.
pub open spec fn firsts_among(executables: Seq<Executable>, n: int) -> Seq<Executable>
    decreases n,
{
    if n <= 0 {
        seq![]
    } else {
        let head = firsts_among(executables, n - 1);
        if is_first_of_name(executables, n - 1) {
            head.push(executables[n - 1])
        } else {
            head
        }
    }
}

/// The executables without those whose name an earlier one has, in their
/// order.
pub fn first_by_name(executables: Vec<Executable>) -> (r: Vec<Executable>)
    ensures
        r@ == firsts_among(executables@, executables.len() as int),
{
    let mut r: Vec<Executable> = Vec::new();
    let mut seen: Vec<Vec<char>> = Vec::new();
    let mut rest = executables;
    let ghost all = rest@;
    let n: usize = rest.len();
    let mut taken: Vec<Executable> = Vec::new();
    let mut i: usize = 0;
    // The executables are taken from the back, so they are turned round first.
    while rest.len() > 0
        invariant
            rest.len() + taken.len() == n,
            n == all.len(),
            forall|k: int| 0 <= k < rest.len() ==> rest@[k] == all[k],
            forall|k: int| 0 <= k < taken.len() ==> taken@[k] == all[n - 1 - k],
        decreases rest.len(),
    {
        let last = rest.pop().unwrap();
        taken.push(last);
    }
    assert(views(seen@) =~= Seq::<Seq<char>>::empty());
    while taken.len() > 0
        invariant
            i + taken.len() == n,
            n == all.len(),
            forall|k: int| 0 <= k < taken.len() ==> taken@[k] == all[n - 1 - k],
            strictly_sorted(views(seen@)),
            forall|x: Seq<char>| views(seen@).contains(x) <==> named_before(all, i as int, x),
            r@ == firsts_among(all, i as int),
        decreases taken.len(),
    {
        let item = taken.pop().unwrap();
        assert(item == all[i as int]);
        let name = chars_of(item.name.as_str());
        let (_, found) = slot(&seen, &name);
        insert_sorted(&mut seen, name);
        proof {
            assert forall|x: Seq<char>| views(seen@).contains(x) <==> named_before(
                all,
                i + 1,
                x,
            ) by {
                if named_before(all, i + 1, x) {
                    let j = choose|j: int| 0 <= j < i + 1 && (#[trigger] all[j]).name@ == x;
                    if j < i {
                        assert(named_before(all, i as int, x));
                    }
                }
                if named_before(all, i as int, x) {
                    let j = choose|j: int| 0 <= j < i && (#[trigger] all[j]).name@ == x;
                    assert(0 <= j < i + 1 && all[j].name@ == x);
                }
                if x == item.name@ {
                    assert(all[i as int].name@ == x);
                }
            }
        }
        if !found {
            r.push(item);
        }
        i += 1;
    }
    r
}

/// An executable, as sequences of characters.
pub struct ExecutableView {
    pub path: Seq<char>,
    pub name: Seq<char>,
}

impl View for Executable {
    type V = ExecutableView;

    open spec fn view(&self) -> ExecutableView {
        ExecutableView { path: self.path@, name: self.name@ }
    }
}

/// The views of a list of executables.
pub open spec fn executable_views(executables: Seq<Executable>) -> Seq<ExecutableView> {
    Seq::new(executables.len(), |i: int| executables[i]@)
}

/// A survey of the machine's tools that is under way: the executables, which
/// of them is looked at, whether the well-known tools have had their turn,
/// how many of the others have answered, and the tools listed so far.
pub struct SurveyView {
    pub executables: Seq<ExecutableView>,
    pub index: int,
    pub second_pass: bool,
    pub processed: int,
    pub tools: Map<Seq<char>, ToolInfoView>,
    pub now: Seq<char>,
}

/// Where a survey stands: a tool is to be asked what it is, or the list is
/// made.
pub enum SurveyStepView {
    /// The tool at this path is to be asked.
    Probe(SurveyView, Seq<char>),
    /// The list: when it was made, and the tools.
    Done(Seq<char>, Map<Seq<char>, ToolInfoView>),
}

/// Whether the executable that a survey looks at is to be asked: in the first
/// pass the well-known tools, in the second the tools not yet listed.
pub open spec fn needs_probe(survey: SurveyView) -> bool {
    let name = survey.executables[survey.index].name;
    if survey.second_pass {
        !survey.tools.contains_key(name)
    } else {
        priority_names().contains(name)
    }
}

/// Where a survey stands once it has moved on to the next executable that is
/// to be asked. After the last executable the second pass begins; it ends
/// after the last executable too, or as soon as fifty tools have answered in
/// it.
pub open spec fn sought(survey: SurveyView) -> SurveyStepView
    decreases
            (if survey.second_pass {
                0int
            } else {
                1int
            }),
            survey.executables.len() - survey.index,
{
    if survey.second_pass && survey.processed >= MAX_TOOLS_TO_PROCESS {
        SurveyStepView::Done(survey.now, survey.tools)
    } else if survey.index < 0 || survey.index >= survey.executables.len() {
        if survey.second_pass {
            SurveyStepView::Done(survey.now, survey.tools)
        } else {
            sought(SurveyView { second_pass: true, index: 0, ..survey })
        }
    } else if needs_probe(survey) {
        SurveyStepView::Probe(survey, survey.executables[survey.index].path)
    } else {
        sought(SurveyView { index: survey.index + 1, ..survey })
    }
}

/// How a survey begins.
pub open spec fn survey_begun(executables: Seq<ExecutableView>, now: Seq<char>) -> SurveyStepView {
    sought(
        SurveyView {
            executables,
            index: 0,
            second_pass: false,
            processed: 0,
            tools: Map::empty(),
            now,
        },
    )
}

/// How a survey goes on when the tool it asked has said what it is, or
/// nothing: a tool that has said it is listed under its name, with its path.
pub open spec fn survey_told(survey: SurveyView, description: Option<Seq<char>>) -> SurveyStepView {
    let asked = survey.executables[survey.index];
    sought(
        SurveyView {
            index: survey.index + 1,
            processed: if survey.second_pass && description is Some {
                survey.processed + 1
            } else {
                survey.processed
            },
            tools: match description {
                Some(desc) => survey.tools.insert(
                    asked.name,
                    ToolInfoView { path: asked.path, desc },
                ),
                None => survey.tools,
            },
            ..survey
        },
    )
}

/// Where a survey stands after the tools it asked have said these things, one
/// after the other.
pub open spec fn survey_after(
    executables: Seq<ExecutableView>,
    now: Seq<char>,
    told: Seq<Option<Seq<char>>>,
) -> SurveyStepView
    decreases told.len(),
{
    if told.len() == 0 {
        survey_begun(executables, now)
    } else {
        match survey_after(executables, now, told.drop_last()) {
            SurveyStepView::Probe(survey, _) => survey_told(survey, told.last()),
            SurveyStepView::Done(made, tools) => SurveyStepView::Done(made, tools),
        }
    }
}

/// A survey that waits for a tool to say what it is.
#[derive(Debug)]
pub struct Survey {
    executables: Vec<Executable>,
    index: usize,
    second_pass: bool,
    processed: usize,
    tools: TextMap<ToolInfo>,
    now: String,
}

impl View for Survey {
    type V = SurveyView;

    closed spec fn view(&self) -> SurveyView {
        SurveyView {
            executables: executable_views(self.executables@),
            index: self.index as int,
            second_pass: self.second_pass,
            processed: self.processed as int,
            tools: self.tools@,
            now: self.now@,
        }
    }
}

/// Where a survey stands, and what it needs to go on.
#[derive(Debug)]
pub enum SurveyStep {
    /// The tool at this path is to be asked what it is.
    Probe(Survey, String),
    /// The list is made.
    Done(ToolsCache),
}

impl View for SurveyStep {
    type V = SurveyStepView;

    open spec fn view(&self) -> SurveyStepView {
        match self {
            SurveyStep::Probe(survey, path) => SurveyStepView::Probe(survey@, path@),
            SurveyStep::Done(cache) => SurveyStepView::Done(cache.last_updated@, cache.tools@),
        }
    }
}

/// How many tools a survey may still ask, at most.
pub open spec fn probes_left(step: SurveyStepView) -> int {
    match step {
        SurveyStepView::Probe(survey, _) => (if survey.second_pass {
            0
        } else {
            survey.executables.len() as int
        }) + survey.executables.len() - survey.index,
        SurveyStepView::Done(_, _) => 0,
    }
}

/// Moves on to the next executable that is to be asked.
fn seek(
    executables: Vec<Executable>,
    index: usize,
    second_pass: bool,
    processed: usize,
    tools: TextMap<ToolInfo>,
    now: String,
) -> (step: SurveyStep)
    requires
        index <= executables.len(),
        processed <= MAX_TOOLS_TO_PROCESS,
    ensures
        step@ == sought(
            SurveyView {
                executables: executable_views(executables@),
                index: index as int,
                second_pass,
                processed: processed as int,
                tools: tools@,
                now: now@,
            },
        ),
        0 <= probes_left(step@) <= (if second_pass {
            0
        } else {
            executables.len() as int
        }) + executables.len() - index,
{
    let ghost all = executable_views(executables@);
    let ghost goal = sought(
        SurveyView {
            executables: all,
            index: index as int,
            second_pass,
            processed: processed as int,
            tools: tools@,
            now: now@,
        },
    );
    let ghost budget = (if second_pass {
        0
    } else {
        executables.len() as int
    }) + executables.len() - index;
    let mut at = index;
    let mut second = second_pass;
    loop
        invariant
            at <= executables.len(),
            processed <= MAX_TOOLS_TO_PROCESS,
            all == executable_views(executables@),
            goal == sought(
                SurveyView {
                    executables: all,
                    index: index as int,
                    second_pass,
                    processed: processed as int,
                    tools: tools@,
                    now: now@,
                },
            ),
            goal == sought(
                SurveyView {
                    executables: all,
                    index: at as int,
                    second_pass: second,
                    processed: processed as int,
                    tools: tools@,
                    now: now@,
                },
            ),
            budget == (if second_pass {
                0
            } else {
                executables.len() as int
            }) + executables.len() - index,
            (if second {
                0
            } else {
                executables.len() as int
            }) + executables.len() - at <= budget,
        decreases
                (if second {
                    0int
                } else {
                    1int
                }),
                executables.len() - at,
    {
        if second && processed >= MAX_TOOLS_TO_PROCESS {
            return SurveyStep::Done(ToolsCache { last_updated: now, tools });
        }
        if at >= executables.len() {
            if second {
                return SurveyStep::Done(ToolsCache { last_updated: now, tools });
            }
            second = true;
            at = 0;
        } else {
            assert(all[at as int] == executables@[at as int]@);
            let wanted = if second {
                !tools.contains_key(executables[at].name.as_str())
            } else {
                is_priority(executables[at].name.as_str())
            };
            if wanted {
                let path = executables[at].path.clone();
                return SurveyStep::Probe(
                    Survey {
                        executables,
                        index: at,
                        second_pass: second,
                        processed,
                        tools,
                        now,
                    },
                    path,
                );
            }
            at += 1;
        }
    }
}

impl Survey {
    #[verifier::type_invariant]
    spec fn in_range(self) -> bool {
        self.index < self.executables.len() && self.processed <= MAX_TOOLS_TO_PROCESS
    }

    /// Begins a survey of the executables, for a list made at `now`.
    pub fn begin(executables: Vec<Executable>, now: String) -> (step: SurveyStep)
        ensures
            step@ == survey_begun(executable_views(executables@), now@),
            0 <= probes_left(step@) <= 2 * executables.len(),
    {
        seek(executables, 0, false, 0, TextMap::new(), now)
    }

    /// Goes on with what the tool that was asked has said.
    pub fn resume(self, description: Option<String>) -> (step: SurveyStep)
        ensures
            step@ == survey_told(
                self@,
                match description {
                    Some(d) => Some(d@),
                    None => None,
                },
            ),
            0 <= probes_left(step@) < probes_left(SurveyStepView::Probe(self@, Seq::empty())),
    {
        proof {
            use_type_invariant(&self);
        }
        let Survey { executables, index, second_pass, processed, tools, now } = self;
        let mut tools = tools;
        let mut processed = processed;
        assert(executable_views(executables@)[index as int] == executables@[index as int]@);
        if let Some(desc) = description {
            tools.insert(
                executables[index].name.clone(),
                ToolInfo { path: executables[index].path.clone(), desc },
            );
            if second_pass && processed < MAX_TOOLS_TO_PROCESS {
                processed += 1;
            }
        }
        seek(executables, index + 1, second_pass, processed, tools, now)
    }
}

/// The views of a list of descriptions that may be there.
pub open spec fn told_views(told: Seq<Option<String>>) -> Seq<Option<Seq<char>>> {
    Seq::new(
        told.len(),
        |i: int|
            match told[i] {
                Some(d) => Some(d@),
                None => None,
            },
    )
}

/// Asks the tools among the executables what they are, and lists those that
/// say it: first the well-known tools, then of the others the first fifty
/// that answer. The list is what the survey comes to with what the tools
/// said.
pub fn discover_tools<H: FnMut(&HostRequest) -> HostReply>(
    executables: Vec<Executable>,
    now: String,
    host: H,
) -> (r: ToolsCache)
    requires
        forall|request: &HostRequest| call_requires(host, (request,)),
    ensures
        exists|told: Seq<Option<String>>|
            survey_after(executable_views(executables@), now@, told_views(told))
                == SurveyStepView::Done(r.last_updated@, r.tools@),
{
    let mut host = host;
    let ghost all = executable_views(executables@);
    let mut step = Survey::begin(executables, now);
    let ghost told = Seq::<Option<String>>::empty();
    assert(told_views(told) =~= Seq::<Option<Seq<char>>>::empty());
    loop
        invariant
            all == executable_views(executables@),
            step@ == survey_after(all, now@, told_views(told)),
            0 <= probes_left(step@),
            forall|request: &HostRequest| call_requires(host, (request,)),
        decreases probes_left(step@),
    {
        match step {
            SurveyStep::Done(cache) => {
                return cache;
            },
            SurveyStep::Probe(survey, path) => {
                let description = extract_description(path.as_str(), &mut host);
                proof {
                    let longer = told.push(description);
                    assert(told_views(longer).drop_last() =~= told_views(told));
                    told = longer;
                }
                step = survey.resume(description);
            },
        }
    }
}

} // verus!
