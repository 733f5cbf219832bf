//! What a tool needs from the machine it runs on, as requests to a host and
//! the host's replies. The library decides what to ask and what an answer
//! means; the host spawns the process, reads the environment, lists the path.

use vstd::prelude::*;
use crate::args::texts;
use crate::report::listing_of;
use crate::text::{chars_of, concat2, concat3, has_prefix, starts_with, strip_suffix, text_of, views,
    without_suffix};
use crate::tools::{Tool, ToolView, lowercased};

verus! {

/// What the host is asked to do.
#[derive(Debug, PartialEq, Eq)]
pub enum HostRequest {
    /// Run a program with arguments, for at most so many milliseconds.
    Run { program: String, args: Vec<String>, timeout_ms: u64 },
    /// Read an environment variable.
    ReadEnv { name: String },
    /// List the files in the directories of the search path.
    ScanPath,
}

/// A request, as sequences of characters.
pub enum RequestView {
    Run { program: Seq<char>, args: Seq<Seq<char>>, timeout_ms: u64 },
    ReadEnv { name: Seq<char> },
    ScanPath,
}

impl View for HostRequest {
    type V = RequestView;

    open spec fn view(&self) -> RequestView {
        match self {
            HostRequest::Run { program, args, timeout_ms } => RequestView::Run {
                program: program@,
                args: texts(args@),
                timeout_ms: *timeout_ms,
            },
            HostRequest::ReadEnv { name } => RequestView::ReadEnv { name: name@ },
            HostRequest::ScanPath => RequestView::ScanPath,
        }
    }
}

/// The views of a list of requests.
pub open spec fn request_views(requests: Seq<HostRequest>) -> Seq<RequestView> {
    Seq::new(requests.len(), |i: int| requests[i]@)
}

/// How a process that the host was asked to run ended.
#[derive(Debug, Clone, PartialEq, Eq)]
pub enum ProcessOutcome {
    /// The process could not be started.
    SpawnFailed { reason: String },
    /// Waiting for the process failed.
    WaitFailed { reason: String },
    /// The process ran out of time and was killed.
    TimedOut,
    /// The process ended: whether with success, its exit status in words, and
    /// what it wrote to standard output.
    Exited { success: bool, status: String, stdout: String },
}

/// A process's outcome, as sequences of characters.
pub enum OutcomeView {
    SpawnFailed { reason: Seq<char> },
    WaitFailed { reason: Seq<char> },
    TimedOut,
    Exited { success: bool, status: Seq<char>, stdout: Seq<char> },
}

impl View for ProcessOutcome {
    type V = OutcomeView;

    open spec fn view(&self) -> OutcomeView {
        match self {
            ProcessOutcome::SpawnFailed { reason } => OutcomeView::SpawnFailed { reason: reason@ },
            ProcessOutcome::WaitFailed { reason } => OutcomeView::WaitFailed { reason: reason@ },
            ProcessOutcome::TimedOut => OutcomeView::TimedOut,
            ProcessOutcome::Exited { success, status, stdout } => OutcomeView::Exited {
                success: *success,
                status: status@,
                stdout: stdout@,
            },
        }
    }
}

/// A file in a directory of the search path.
#[derive(Debug, Clone, PartialEq, Eq)]
pub struct PathEntry {
    /// The file's name.
    pub name: String,
    /// Whether the file can be executed.
    pub executable: bool,
}

/// A file of the search path, as a sequence of characters.
pub struct PathEntryView {
    pub name: Seq<char>,
    pub executable: bool,
}

impl View for PathEntry {
    type V = PathEntryView;

    open spec fn view(&self) -> PathEntryView {
        PathEntryView { name: self.name@, executable: self.executable }
    }
}

/// The views of a list of files.
pub open spec fn entry_views(entries: Seq<PathEntry>) -> Seq<PathEntryView> {
    Seq::new(entries.len(), |i: int| entries[i]@)
}

/// What the host reports back.
#[derive(Debug, Clone, PartialEq, Eq)]
pub enum HostReply {
    /// How the process ended.
    Process(ProcessOutcome),
    /// The variable's value, or `None` where it is not set.
    Env(Option<String>),
    /// The files of the search path, or `None` where there is no search path.
    Path(Option<Vec<PathEntry>>),
}

/// A reply, as sequences of characters.
pub enum ReplyView {
    Process(OutcomeView),
    Env(Option<Seq<char>>),
    Path(Option<Seq<PathEntryView>>),
}

impl View for HostReply {
    type V = ReplyView;

    open spec fn view(&self) -> ReplyView {
        match self {
            HostReply::Process(outcome) => ReplyView::Process(outcome@),
            HostReply::Env(value) => ReplyView::Env(
                match value {
                    Some(v) => Some(v@),
                    None => None,
                },
            ),
            HostReply::Path(entries) => ReplyView::Path(
                match entries {
                    Some(e) => Some(entry_views(e@)),
                    None => None,
                },
            ),
        }
    }
}

/// What a process's outcome amounts to: its output, or why there is none. A
/// process that ended without success still counts where it wrote something.
pub open spec fn folded(outcome: OutcomeView) -> Result<Seq<char>, Seq<char>> {
    match outcome {
        OutcomeView::SpawnFailed { reason } => Err("Failed to spawn command: "@ + reason),
        OutcomeView::WaitFailed { reason } => Err("Failed to wait for command: "@ + reason),
        OutcomeView::TimedOut => Err("Command timed out"@),
        OutcomeView::Exited { success, status, stdout } => if success || stdout.len() > 0 {
            Ok(stdout)
        } else {
            Err("Command exited with status: "@ + status)
        },
    }
}

/// A file's name without the first of the endings `.exe`, `.cmd`, `.bat`,
/// `.com` that it has.
pub open spec fn bare_name(name: Seq<char>) -> Seq<char> {
    match without_suffix(name, ".exe"@) {
        Some(bare) => bare,
        None => match without_suffix(name, ".cmd"@) {
            Some(bare) => bare,
            None => match without_suffix(name, ".bat"@) {
                Some(bare) => bare,
                None => match without_suffix(name, ".com"@) {
                    Some(bare) => bare,
                    None => name,
                },
            },
        },
    }
}

/// Whether a file is a command that begins with `prefix`, whatever the case.
pub open spec fn matches_prefix(entry: PathEntryView, prefix: Seq<char>) -> bool {
    entry.executable && has_prefix(lowercased(entry.name), lowercased(prefix))
}

/// The bare names of the commands among `entries` that begin with `prefix`.
pub open spec fn matching_names(entries: Seq<PathEntryView>, prefix: Seq<char>) -> Seq<Seq<char>>
    decreases entries.len(),
{
    if entries.len() == 0 {
        seq![]
    } else {
        let head = matching_names(entries.drop_last(), prefix);
        if matches_prefix(entries.last(), prefix) {
            head.push(bare_name(entries.last().name))
        } else {
            head
        }
    }
}

/// What a scan of the search path amounts to: the listing of the commands that
/// begin with `prefix`, or that there is none.
pub open spec fn scanned(entries: Seq<PathEntryView>, prefix: Seq<char>) -> Result<
    Seq<char>,
    Seq<char>,
> {
    let names = matching_names(entries, prefix);
    if names.len() == 0 {
        Err("No commands found matching prefix '"@ + prefix + "'"@)
    } else {
        Ok(listing_of(names))
    }
}

/// What a reply to a request amounts to for a tool: the text to report on, or
/// why there is none.
pub open spec fn attempt_result(request: RequestView, tool: ToolView, reply: ReplyView) -> Result<
    Seq<char>,
    Seq<char>,
> {
    match (request, reply) {
        (RequestView::Run { .. }, ReplyView::Process(outcome)) => folded(outcome),
        (RequestView::ReadEnv { name }, ReplyView::Env(value)) => match value {
            Some(v) => Ok(v),
            None => Err("Environment variable '"@ + name + "' not set"@),
        },
        (RequestView::ScanPath, ReplyView::Path(entries)) => match entries {
            Some(e) => scanned(e, crate::tools::tool_subject(tool)),
            None => Err("PATH not set"@),
        },
        _ => Err("Reply does not answer the request"@),
    }
}

/// How long the host sleeps between two looks at a process, in milliseconds.
pub const WAIT_POLL_MS: u64 = 10;

/// What the host does after a look at a process that it waits for.
#[derive(Debug, Clone, Copy, PartialEq, Eq, Structural)]
pub enum WaitStep {
    /// The process has ended: read what it wrote.
    Collect,
    /// The process has run out of time: kill it.
    Kill,
    /// Sleep for so many milliseconds and look again.
    Sleep(u64),
}

/// What the host does after a look at a process: `exited` tells whether the
/// process has ended, `elapsed_ms` for how long the host has waited.
pub fn wait_step(exited: bool, elapsed_ms: u64, timeout_ms: u64) -> (r: WaitStep)
    ensures
        r == if exited {
            WaitStep::Collect
        } else if elapsed_ms >= timeout_ms {
            WaitStep::Kill
        } else {
            WaitStep::Sleep(WAIT_POLL_MS)
        },
{
    if exited {
        WaitStep::Collect
    } else if elapsed_ms >= timeout_ms {
        WaitStep::Kill
    } else {
        WaitStep::Sleep(WAIT_POLL_MS)
    }
}

/// What a process's outcome amounts to.
pub fn fold_outcome(outcome: &ProcessOutcome) -> (r: Result<String, String>)
    ensures
        match r {
            Ok(out) => folded(outcome@) == Ok::<Seq<char>, Seq<char>>(out@),
            Err(e) => folded(outcome@) == Err::<Seq<char>, Seq<char>>(e@),
        },
{
    match outcome {
        ProcessOutcome::SpawnFailed { reason } => Err(
            concat2("Failed to spawn command: ", reason.as_str()),
        ),
        ProcessOutcome::WaitFailed { reason } => Err(
            concat2("Failed to wait for command: ", reason.as_str()),
        ),
        ProcessOutcome::TimedOut => Err("Command timed out".to_owned()),
        ProcessOutcome::Exited { success, status, stdout } => {
            if *success || !stdout.as_str().is_empty() {
                Ok(stdout.clone())
            } else {
                Err(concat2("Command exited with status: ", status.as_str()))
            }
        },
    }
}

/// A file's name without its ending, where it has one of the known ones.
fn strip_ending(name: &Vec<char>) -> (r: Vec<char>)
    ensures
        r@ == bare_name(name@),
{
    if let Some(bare) = strip_suffix(name, ".exe") {
        return bare;
    }
    if let Some(bare) = strip_suffix(name, ".cmd") {
        return bare;
    }
    if let Some(bare) = strip_suffix(name, ".bat") {
        return bare;
    }
    if let Some(bare) = strip_suffix(name, ".com") {
        return bare;
    }
    let r = crate::text::slice(name, 0, name.len());
    assert(r@ =~= name@);
    r
}

/// What a scan of the search path amounts to.
pub fn scan_matches(entries: &Vec<PathEntry>, prefix: &str) -> (r: Result<String, String>)
    ensures
        match r {
            Ok(out) => scanned(entry_views(entries@), prefix@) == Ok::<Seq<char>, Seq<char>>(out@),
            Err(e) => scanned(entry_views(entries@), prefix@) == Err::<Seq<char>, Seq<char>>(e@),
        },
{
    let wanted = chars_of(prefix.to_lowercase().as_str());
    let mut names: Vec<Vec<char>> = Vec::new();
    let mut i: usize = 0;
    assert(entry_views(entries@).take(0) =~= Seq::<PathEntryView>::empty());
    assert(views(names@) =~= Seq::<Seq<char>>::empty());
    while i < entries.len()
        invariant
            i <= entries.len(),
            wanted@ == lowercased(prefix@),
            views(names@) == matching_names(entry_views(entries@).take(i as int), prefix@),
        decreases entries.len() - i,
    {
        let ghost next = entry_views(entries@).take(i + 1);
        assert(next.drop_last() =~= entry_views(entries@).take(i as int));
        assert(next.last() == entries@[i as int]@);
        if entries[i].executable {
            let lower = chars_of(entries[i].name.as_str().to_lowercase().as_str());
            if starts_with(&lower, &wanted) {
                let name = chars_of(entries[i].name.as_str());
                let bare = strip_ending(&name);
                proof {
                    crate::text::lemma_views_push(names@, bare);
                }
                names.push(bare);
            }
        }
        i += 1;
    }
    assert(entry_views(entries@).take(entries.len() as int) =~= entry_views(entries@));
    if names.len() == 0 {
        Err(concat3("No commands found matching prefix '", prefix, "'"))
    } else {
        let r = crate::report::listing(&names);
        Ok(text_of(&r))
    }
}

/// What a reply to a request amounts to for a tool.
pub fn settle_attempt(request: &HostRequest, tool: &Tool, reply: &HostReply) -> (r: Result<
    String,
    String,
>)
    ensures
        match r {
            Ok(out) => attempt_result(request@, tool@, reply@) == Ok::<Seq<char>, Seq<char>>(out@),
            Err(e) => attempt_result(request@, tool@, reply@) == Err::<Seq<char>, Seq<char>>(e@),
        },
{
    match (request, reply) {
        (HostRequest::Run { .. }, HostReply::Process(outcome)) => fold_outcome(outcome),
        (HostRequest::ReadEnv { name }, HostReply::Env(value)) => match value {
            Some(v) => Ok(v.clone()),
            None => Err(concat3("Environment variable '", name.as_str(), "' not set")),
        },
        (HostRequest::ScanPath, HostReply::Path(entries)) => match entries {
            Some(e) => scan_matches(e, tool.subject().as_str()),
            None => Err("PATH not set".to_owned()),
        },
        _ => Err("Reply does not answer the request".to_owned()),
    }
}

} // verus!
