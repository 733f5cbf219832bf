//! Running a tool: step by step against a host, and through a cache that
//! answers a repeated question without asking the host again.

use vstd::prelude::*;
use crate::host::{HostReply, HostRequest, ReplyView, RequestView, attempt_result, request_views,
    settle_attempt};
use crate::plan::{finish, finished, lemma_plan_is_short, plan, plan_of, unavailable};
use crate::tools::{DEFAULT_CACHE_TTL_MS, DEFAULT_TIMEOUT_MS, Shell, Tool, ToolResult,
    ToolResultView, ToolView, failed, succeeded};

verus! {

/// A tool run that waits for the host's reply to its latest request.
pub struct ToolRun {
    shell: Shell,
    tool: Tool,
    timeout_ms: u64,
    attempt: usize,
}

/// A waiting tool run: the tool, where it runs, and which of its requests is
/// out.
pub struct RunView {
    pub shell: Shell,
    pub tool: ToolView,
    pub timeout_ms: u64,
    pub attempt: int,
}

impl View for ToolRun {
    type V = RunView;

    closed spec fn view(&self) -> RunView {
        RunView {
            shell: self.shell,
            tool: self.tool@,
            timeout_ms: self.timeout_ms,
            attempt: self.attempt as int,
        }
    }
}

/// Where a tool run stands: it asks the host for something, or it is done.
pub enum Step {
    Ask(ToolRun, HostRequest),
    Done(ToolResult),
}

/// Where a tool run stands, as sequences of characters.
pub enum StepView {
    Ask(RunView, RequestView),
    Done(ToolResultView),
}

impl View for Step {
    type V = StepView;

    open spec fn view(&self) -> StepView {
        match self {
            Step::Ask(run, request) => StepView::Ask(run@, request@),
            Step::Done(result) => StepView::Done(result@),
        }
    }
}

/// The step with the request number `attempt` out.
pub open spec fn asking(shell: Shell, tool: ToolView, timeout_ms: u64, attempt: int) -> StepView {
    StepView::Ask(
        RunView { shell, tool, timeout_ms, attempt },
        plan_of(shell, tool, timeout_ms)[attempt],
    )
}

/// How a tool run begins: with the tool's first request, or done at once where
/// the tool can try nothing on this shell.
pub open spec fn begun(shell: Shell, tool: ToolView, timeout_ms: u64) -> StepView {
    if plan_of(shell, tool, timeout_ms).len() == 0 {
        StepView::Done(unavailable())
    } else {
        asking(shell, tool, timeout_ms, 0)
    }
}

/// How a waiting run goes on when the host replies. Output ends the run with
/// the tool's report on it. Without output the next request goes out; after
/// the last one the run ends in failure, for the last reason given.
pub open spec fn resumed(run: RunView, reply: ReplyView) -> StepView {
    let requests = plan_of(run.shell, run.tool, run.timeout_ms);
    match attempt_result(requests[run.attempt], run.tool, reply) {
        Ok(output) => StepView::Done(finished(run.tool, run.attempt, output)),
        Err(reason) => if run.attempt + 1 < requests.len() {
            asking(run.shell, run.tool, run.timeout_ms, run.attempt + 1)
        } else {
            StepView::Done(failed(reason))
        },
    }
}

/// Where a run stands after the host has given these replies, one to each
/// request in turn. Replies to a run that is done change nothing.
pub open spec fn run_after(
    shell: Shell,
    tool: ToolView,
    timeout_ms: u64,
    replies: Seq<ReplyView>,
) -> StepView
    decreases replies.len(),
{
    if replies.len() == 0 {
        begun(shell, tool, timeout_ms)
    } else {
        match run_after(shell, tool, timeout_ms, replies.drop_last()) {
            StepView::Ask(run, _) => resumed(run, replies.last()),
            StepView::Done(result) => StepView::Done(result),
        }
    }
}

impl ToolRun {
    #[verifier::type_invariant]
    spec fn in_plan(self) -> bool {
        self.attempt < plan_of(self.shell, self.tool@, self.timeout_ms).len()
    }

    /// Begins to run `tool` on `shell`.
    pub fn begin(shell: Shell, tool: &Tool, timeout_ms: u64) -> (step: Step)
        ensures
            step@ == begun(shell, tool@, timeout_ms),
    {
        let mut requests = plan(shell, tool, timeout_ms);
        if requests.len() == 0 {
            Step::Done(ToolResult::failure("man pages not available on this platform".to_owned()))
        } else {
            let ghost all = request_views(requests@);
            let first = requests.swap_remove(0);
            assert(first@ == all[0]);
            Step::Ask(ToolRun { shell, tool: tool.clone(), timeout_ms, attempt: 0 }, first)
        }
    }

    /// Goes on with the host's reply to the request that is out.
    pub fn resume(self, reply: &HostReply) -> (step: Step)
        ensures
            step@ == resumed(self@, reply@),
    {
        proof {
            use_type_invariant(&self);
        }
        let mut requests = plan(self.shell, &self.tool, self.timeout_ms);
        let ghost all = request_views(requests@);
        assert(all[self.attempt as int] == requests@[self.attempt as int]@);
        match settle_attempt(&requests[self.attempt], &self.tool, reply) {
            Ok(output) => Step::Done(finish(&self.tool, self.attempt, output.as_str())),
            Err(reason) => {
                if self.attempt + 1 < requests.len() {
                    let next = requests.swap_remove(self.attempt + 1);
                    assert(next@ == all[self.attempt + 1]);
                    Step::Ask(
                        ToolRun {
                            shell: self.shell,
                            tool: self.tool,
                            timeout_ms: self.timeout_ms,
                            attempt: self.attempt + 1,
                        },
                        next,
                    )
                } else {
                    Step::Done(ToolResult::failure(reason))
                }
            },
        }
    }

    /// How many requests may still go out after the one that is out.
    pub fn remaining(&self) -> (n: usize)
        ensures
            n == plan_of(self@.shell, self@.tool, self@.timeout_ms).len() - self@.attempt - 1,
            0 <= self@.attempt < plan_of(self@.shell, self@.tool, self@.timeout_ms).len() <= 3,
    {
        proof {
            use_type_invariant(self);
            lemma_plan_is_short(self.shell, self.tool@, self.timeout_ms);
        }
        let requests = plan(self.shell, &self.tool, self.timeout_ms);
        assert(request_views(requests@).len() == requests.len());
        requests.len() - self.attempt - 1
    }
}

/// Whether a result is as a tool's result must be: one that is no success
/// has no output.
pub open spec fn is_sound(result: ToolResultView) -> bool {
    !result.success ==> result.output.len() == 0
}

/// Whatever the host replies, a run that is done has a result that is sound:
/// a failure carries no output.
pub proof fn law_failures_have_no_output(
    shell: Shell,
    tool: ToolView,
    timeout_ms: u64,
    replies: Seq<ReplyView>,
)
    ensures
        run_after(shell, tool, timeout_ms, replies) matches StepView::Done(result) ==> is_sound(
            result,
        ),
    decreases replies.len(),
{
    if replies.len() > 0 {
        law_failures_have_no_output(shell, tool, timeout_ms, replies.drop_last());
    }
}

/// The views of a list of replies.
pub open spec fn reply_views(replies: Seq<HostReply>) -> Seq<ReplyView> {
    Seq::new(replies.len(), |i: int| replies[i]@)
}

/// Whether `reply` is what `host` may answer to the request.
pub open spec fn answered<H: FnMut(&HostRequest) -> HostReply>(
    host: H,
    request: RequestView,
    reply: HostReply,
) -> bool {
    exists|asked: HostRequest| asked@ == request && call_ensures(host, (&asked,), reply)
}

/// Whether the replies are what `host` may answer to the requests of the
/// tool, one by one in their order.
pub open spec fn answers<H: FnMut(&HostRequest) -> HostReply>(
    host: H,
    shell: Shell,
    tool: ToolView,
    timeout_ms: u64,
    replies: Seq<HostReply>,
) -> bool {
    &&& replies.len() <= plan_of(shell, tool, timeout_ms).len()
    &&& forall|i: int|
        0 <= i < replies.len() ==> answered(
            host,
            plan_of(shell, tool, timeout_ms)[i],
            #[trigger] replies[i],
        )
}

/// A run that still waits after some replies has made as many requests as it
/// has got replies, and one more.
pub proof fn lemma_waiting_run(shell: Shell, tool: ToolView, timeout_ms: u64, replies: Seq<ReplyView>)
    ensures
        match run_after(shell, tool, timeout_ms, replies) {
            StepView::Ask(run, request) => run == (RunView {
                shell,
                tool,
                timeout_ms,
                attempt: replies.len() as int,
            }) && replies.len() < plan_of(shell, tool, timeout_ms).len() && request == plan_of(
                shell,
                tool,
                timeout_ms,
            )[replies.len() as int],
            StepView::Done(_) => true,
        },
    decreases replies.len(),
{
    if replies.len() > 0 {
        lemma_waiting_run(shell, tool, timeout_ms, replies.drop_last());
    }
}

/// Runs `tool` on `shell` to its end, with `host` doing what the tool asks:
/// the result is what the tool's run comes to with the answers that `host`
/// gave to the tool's requests.
pub fn run_tool<H: FnMut(&HostRequest) -> HostReply>(
    shell: Shell,
    tool: &Tool,
    timeout_ms: u64,
    host: &mut H,
) -> (r: ToolResult)
    requires
        forall|request: &HostRequest| call_requires(*old(host), (request,)),
    ensures
        *final(host) == *old(host),
        exists|replies: Seq<HostReply>|
            answers(*old(host), shell, tool@, timeout_ms, replies) && run_after(
                shell,
                tool@,
                timeout_ms,
                reply_views(replies),
            ) == StepView::Done(r@),
{
    let mut step = ToolRun::begin(shell, tool, timeout_ms);
    let ghost replies = Seq::<HostReply>::empty();
    let mut left: usize = 3;
    assert(reply_views(replies) =~= Seq::<ReplyView>::empty());
    loop
        invariant
            step@ == run_after(shell, tool@, timeout_ms, reply_views(replies)),
            answers(*old(host), shell, tool@, timeout_ms, replies),
            *host == *old(host),
            forall|request: &HostRequest| call_requires(*host, (request,)),
            match step {
                Step::Ask(run, _) => plan_of(run@.shell, run@.tool, run@.timeout_ms).len()
                    - run@.attempt <= left,
                Step::Done(_) => true,
            },
        decreases left,
    {
        match step {
            Step::Done(result) => {
                return result;
            },
            Step::Ask(run, request) => {
                let after = run.remaining();
                proof {
                    lemma_waiting_run(shell, tool@, timeout_ms, reply_views(replies));
                }
                let reply = host(&request);
                proof {
                    let longer = replies.push(reply);
                    assert(reply_views(longer).drop_last() =~= reply_views(replies));
                    assert(reply_views(longer).last() == reply@);
                    assert(answered(
                        *old(host),
                        plan_of(shell, tool@, timeout_ms)[replies.len() as int],
                        reply,
                    ));
                    assert forall|i: int| 0 <= i < longer.len() implies answered(
                        *old(host),
                        plan_of(shell, tool@, timeout_ms)[i],
                        #[trigger] longer[i],
                    ) by {
                        if i < replies.len() {
                            assert(longer[i] == replies[i]);
                        }
                    }
                    replies = longer;
                }
                step = run.resume(&reply);
                left = after;
            },
        }
    }
}

/// One cached result.
struct CacheEntry {
    tool: Tool,
    result: ToolResult,
    created_ms: u64,
}

/// What the cache holds for a tool: the result and when it was stored.
pub struct EntryView {
    pub result: ToolResultView,
    pub created_ms: u64,
}

/// What the first entry for `tool` holds.
spec fn cached_entry(entries: Seq<CacheEntry>, tool: ToolView) -> Option<EntryView>
    decreases entries.len(),
{
    if entries.len() == 0 {
        None
    } else if entries[0].tool@ == tool {
        Some(EntryView { result: entries[0].result@, created_ms: entries[0].created_ms })
    } else {
        cached_entry(entries.drop_first(), tool)
    }
}

/// The map that a list of entries stands for.
spec fn cache_map(entries: Seq<CacheEntry>) -> Map<ToolView, EntryView> {
    Map::new(
        |tool: ToolView| cached_entry(entries, tool) is Some,
        |tool: ToolView| cached_entry(entries, tool)->0,
    )
}

/// What the entries hold after the first entry for a tool was replaced.
proof fn lemma_cached_update(entries: Seq<CacheEntry>, i: int, entry: CacheEntry, tool: ToolView)
    requires
        0 <= i < entries.len(),
        forall|j: int| 0 <= j < i ==> entries[j].tool@ != entry.tool@,
        entries[i].tool@ == entry.tool@,
    ensures
        cached_entry(entries.update(i, entry), tool) == if tool == entry.tool@ {
            Some(EntryView { result: entry.result@, created_ms: entry.created_ms })
        } else {
            cached_entry(entries, tool)
        },
    decreases entries.len(),
{
    let after = entries.update(i, entry);
    if i > 0 {
        assert(after.drop_first() =~= entries.drop_first().update(i - 1, entry));
        lemma_cached_update(entries.drop_first(), i - 1, entry, tool);
        assert(entries[0].tool@ != entry.tool@);
    } else {
        assert(after.drop_first() =~= entries.drop_first());
    }
}

/// What the entries hold after an entry was added for a tool that had none.
proof fn lemma_cached_push(entries: Seq<CacheEntry>, entry: CacheEntry, tool: ToolView)
    requires
        forall|j: int| 0 <= j < entries.len() ==> entries[j].tool@ != entry.tool@,
    ensures
        cached_entry(entries.push(entry), tool) == if tool == entry.tool@ {
            Some(EntryView { result: entry.result@, created_ms: entry.created_ms })
        } else {
            cached_entry(entries, tool)
        },
    decreases entries.len(),
{
    let after = entries.push(entry);
    if entries.len() > 0 {
        let rest = entries.drop_first();
        assert(after.drop_first() =~= rest.push(entry));
        assert forall|j: int| 0 <= j < rest.len() implies rest[j].tool@ != entry.tool@ by {
            assert(rest[j] == entries[j + 1]);
        }
        lemma_cached_push(rest, entry, tool);
        assert(after[0] == entries[0]);
        assert(entries[0].tool@ != entry.tool@);
    } else {
        assert(after[0] == entry);
        assert(after.drop_first() =~= Seq::<CacheEntry>::empty());
        assert(cached_entry(after.drop_first(), tool) is None);
    }
}

/// How old an entry stored at `created_ms` is at `now_ms`. A clock that went
/// back makes it new.
pub open spec fn age(now_ms: u64, created_ms: u64) -> int {
    if now_ms >= created_ms {
        now_ms - created_ms
    } else {
        0
    }
}

/// The result that the cache answers with at `now_ms`: that of the entry for
/// the tool, where there is one that is younger than `ttl_ms`.
pub open spec fn live(
    cache: Map<ToolView, EntryView>,
    tool: ToolView,
    now_ms: u64,
    ttl_ms: u64,
) -> Option<ToolResultView> {
    if cache.contains_key(tool) && age(now_ms, cache[tool].created_ms) < ttl_ms {
        Some(cache[tool].result)
    } else {
        None
    }
}

/// Runs tools on one shell and remembers what they reported.
pub struct ToolExecutor {
    shell: Shell,
    timeout_ms: u64,
    cache_ttl_ms: u64,
    cache: Vec<CacheEntry>,
}

/// An executor: its shell, its two time limits and what its cache holds.
pub struct ExecutorView {
    pub shell: Shell,
    pub timeout_ms: u64,
    pub cache_ttl_ms: u64,
    pub cache: Map<ToolView, EntryView>,
}

impl View for ToolExecutor {
    type V = ExecutorView;

    closed spec fn view(&self) -> ExecutorView {
        ExecutorView {
            shell: self.shell,
            timeout_ms: self.timeout_ms,
            cache_ttl_ms: self.cache_ttl_ms,
            cache: cache_map(self.cache@),
        }
    }
}

impl ToolExecutor {
    /// An executor for `shell` with the default time limits and nothing cached.
    pub fn new(shell: Shell) -> (r: Self)
        ensures
            r@ == (ExecutorView {
                shell,
                timeout_ms: DEFAULT_TIMEOUT_MS,
                cache_ttl_ms: DEFAULT_CACHE_TTL_MS,
                cache: Map::empty(),
            }),
    {
        let r = ToolExecutor {
            shell,
            timeout_ms: DEFAULT_TIMEOUT_MS,
            cache_ttl_ms: DEFAULT_CACHE_TTL_MS,
            cache: Vec::new(),
        };
        assert(cache_map(r.cache@) =~= Map::<ToolView, EntryView>::empty());
        r
    }

    /// The executor with another limit on a command's running time.
    pub fn with_timeout(self, timeout_ms: u64) -> (r: Self)
        ensures
            r@ == (ExecutorView { timeout_ms, ..self@ }),
    {
        ToolExecutor {
            shell: self.shell,
            timeout_ms,
            cache_ttl_ms: self.cache_ttl_ms,
            cache: self.cache,
        }
    }

    /// The executor with another limit on a cached result's age.
    pub fn with_cache_ttl(self, ttl_ms: u64) -> (r: Self)
        ensures
            r@ == (ExecutorView { cache_ttl_ms: ttl_ms, ..self@ }),
    {
        ToolExecutor {
            shell: self.shell,
            timeout_ms: self.timeout_ms,
            cache_ttl_ms: ttl_ms,
            cache: self.cache,
        }
    }

    /// The executor's shell.
    pub fn shell(&self) -> (r: Shell)
        ensures
            r == self@.shell,
    {
        self.shell
    }

    /// The limit on a command's running time, in milliseconds.
    pub fn timeout_ms(&self) -> (r: u64)
        ensures
            r == self@.timeout_ms,
    {
        self.timeout_ms
    }

    /// The limit on a cached result's age, in milliseconds.
    pub fn cache_ttl_ms(&self) -> (r: u64)
        ensures
            r == self@.cache_ttl_ms,
    {
        self.cache_ttl_ms
    }

    /// Whether nothing is cached.
    pub fn cache_is_empty(&self) -> (b: bool)
        ensures
            b == (self@.cache == Map::<ToolView, EntryView>::empty()),
    {
        proof {
            if self.cache.len() > 0 {
                assert(cached_entry(self.cache@, self.cache@[0].tool@) is Some);
                assert(self@.cache.contains_key(self.cache@[0].tool@));
            } else {
                assert(self@.cache =~= Map::<ToolView, EntryView>::empty());
            }
        }
        self.cache.len() == 0
    }

    /// The index of the first entry for `tool`.
    fn entry_index(&self, tool: &Tool) -> (r: Option<usize>)
        ensures
            match r {
                Some(i) => i < self.cache.len() && self.cache@[i as int].tool@ == tool@ && (forall|
                    j: int,
                |
                    0 <= j < i ==> self.cache@[j].tool@ != tool@) && cached_entry(
                    self.cache@,
                    tool@,
                ) == Some(
                    EntryView {
                        result: self.cache@[i as int].result@,
                        created_ms: self.cache@[i as int].created_ms,
                    },
                ),
                None => (forall|j: int| 0 <= j < self.cache.len() ==> self.cache@[j].tool@
                    != tool@) && cached_entry(self.cache@, tool@) is None,
            },
    {
        let mut i: usize = 0;
        assert(self.cache@.skip(0) =~= self.cache@);
        while i < self.cache.len()
            invariant
                i <= self.cache.len(),
                forall|j: int| 0 <= j < i ==> self.cache@[j].tool@ != tool@,
                cached_entry(self.cache@, tool@) == cached_entry(self.cache@.skip(i as int), tool@),
            decreases self.cache.len() - i,
        {
            assert(self.cache@.skip(i as int)[0] == self.cache@[i as int]);
            if self.cache[i].tool.same_as(tool) {
                return Some(i);
            }
            assert(self.cache@.skip(i as int).drop_first() =~= self.cache@.skip(i + 1));
            i += 1;
        }
        None
    }

    /// The result that the cache answers with at `now_ms`.
    pub fn cached(&self, tool: &Tool, now_ms: u64) -> (r: Option<ToolResult>)
        ensures
            match r {
                Some(hit) => live(self@.cache, tool@, now_ms, self@.cache_ttl_ms) == Some(hit@),
                None => live(self@.cache, tool@, now_ms, self@.cache_ttl_ms) is None,
            },
    {
        match self.entry_index(tool) {
            Some(i) => {
                let created: u64 = self.cache[i].created_ms;
                let elapsed: u64 = if now_ms >= created {
                    now_ms - created
                } else {
                    0
                };
                if elapsed < self.cache_ttl_ms {
                    Some(self.cache[i].result.clone())
                } else {
                    None
                }
            },
            None => None,
        }
    }

    /// Remembers at `now_ms` what `tool` reported, in place of what was
    /// remembered for it before.
    pub fn store(&mut self, tool: &Tool, result: &ToolResult, now_ms: u64)
        ensures
            final(self)@ == (ExecutorView {
                cache: old(self)@.cache.insert(
                    tool@,
                    EntryView { result: result@, created_ms: now_ms },
                ),
                ..old(self)@
            }),
    {
        let entry = CacheEntry { tool: tool.clone(), result: result.clone(), created_ms: now_ms };
        let ghost before = self.cache@;
        match self.entry_index(tool) {
            Some(i) => {
                proof {
                    assert forall|t: ToolView| #[trigger]
                        cached_entry(before.update(i as int, entry), t) == if t == tool@ {
                            Some(EntryView { result: result@, created_ms: now_ms })
                        } else {
                            cached_entry(before, t)
                        } by {
                        lemma_cached_update(before, i as int, entry, t);
                    }
                }
                self.cache.set(i, entry);
            },
            None => {
                proof {
                    assert forall|t: ToolView| #[trigger]
                        cached_entry(before.push(entry), t) == if t == tool@ {
                            Some(EntryView { result: result@, created_ms: now_ms })
                        } else {
                            cached_entry(before, t)
                        } by {
                        lemma_cached_push(before, entry, t);
                    }
                }
                self.cache.push(entry);
            },
        }
        assert(cache_map(self.cache@) =~= cache_map(before).insert(
            tool@,
            EntryView { result: result@, created_ms: now_ms },
        ));
    }

    /// Forgets every cached result.
    pub fn clear_cache(&mut self)
        ensures
            final(self)@ == (ExecutorView { cache: Map::empty(), ..old(self)@ }),
    {
        self.cache.clear();
        assert(cache_map(self.cache@) =~= Map::<ToolView, EntryView>::empty());
    }

    /// How the execution of `tool` begins at `now_ms`: done at once where the
    /// cache answers, without a request to the host; else as the tool's run
    /// begins.
    pub fn start(&self, tool: &Tool, now_ms: u64) -> (step: Step)
        ensures
            step@ == match live(self@.cache, tool@, now_ms, self@.cache_ttl_ms) {
                Some(hit) => StepView::Done(hit),
                None => begun(self@.shell, tool@, self@.timeout_ms),
            },
    {
        match self.cached(tool, now_ms) {
            Some(hit) => Step::Done(hit),
            None => ToolRun::begin(self.shell, tool, self.timeout_ms),
        }
    }

    /// Executes `tool` at `now_ms`. Where the cache answers, the answer is
    /// returned as it was stored and nothing else happens. Else the tool runs
    /// against `host`, and what it reports is stored and returned. Failures are
    /// results like any other: this never fails.
    pub fn execute<H: FnMut(&HostRequest) -> HostReply>(
        &mut self,
        tool: &Tool,
        now_ms: u64,
        host: H,
    ) -> (r: ToolResult)
        requires
            forall|request: &HostRequest| call_requires(host, (request,)),
        ensures
            match live(old(self)@.cache, tool@, now_ms, old(self)@.cache_ttl_ms) {
                Some(hit) => r@ == hit && final(self)@ == old(self)@,
                None => (exists|replies: Seq<HostReply>|
                    answers(host, old(self)@.shell, tool@, old(self)@.timeout_ms, replies)
                        && run_after(
                        old(self)@.shell,
                        tool@,
                        old(self)@.timeout_ms,
                        reply_views(replies),
                    ) == StepView::Done(r@)) && final(self)@ == (ExecutorView {
                    cache: old(self)@.cache.insert(
                        tool@,
                        EntryView { result: r@, created_ms: now_ms },
                    ),
                    ..old(self)@
                }),
            },
    {
        if let Some(hit) = self.cached(tool, now_ms) {
            return hit;
        }
        let mut host = host;
        let result = run_tool(self.shell, tool, self.timeout_ms, &mut host);
        self.store(tool, &result, now_ms);
        result
    }
}

/// A result stored at one time is the cache's answer at any later time that
/// lies less than the time to live after it.
pub proof fn law_repeat_within_ttl(
    cache: Map<ToolView, EntryView>,
    tool: ToolView,
    result: ToolResultView,
    stored_ms: u64,
    now_ms: u64,
    ttl_ms: u64,
)
    requires
        stored_ms <= now_ms,
        now_ms - stored_ms < ttl_ms,
    ensures
        live(
            cache.insert(tool, EntryView { result, created_ms: stored_ms }),
            tool,
            now_ms,
            ttl_ms,
        ) == Some(result),
{
}

/// Storing a result for one tool leaves the cache's answers for every other
/// tool as they were.
pub proof fn law_store_keeps_others(
    cache: Map<ToolView, EntryView>,
    tool: ToolView,
    other: ToolView,
    entry: EntryView,
    now_ms: u64,
    ttl_ms: u64,
)
    requires
        other != tool,
    ensures
        live(cache.insert(tool, entry), other, now_ms, ttl_ms) == live(cache, other, now_ms, ttl_ms),
{
}

/// The variable tool asks the host for the variable and for nothing else: it
/// succeeds with the variable's value where the variable is set, and fails
/// where it is not.
pub proof fn law_env_lookup(shell: Shell, name: Seq<char>, timeout_ms: u64, value: Option<Seq<char>>)
    ensures
        begun(shell, ToolView::GetEnvVar { name }, timeout_ms) matches StepView::Ask(run, request)
            && request == (RequestView::ReadEnv { name }) && resumed(run, ReplyView::Env(value))
            == StepView::Done(
            match value {
                Some(v) => succeeded(v),
                None => failed("Environment variable '"@ + name + "' not set"@),
            },
        ),
{
}

/// On a shell of Windows the manual tool fails at once, without a request.
pub proof fn law_no_manual_on_windows(shell: Shell, command: Seq<char>, timeout_ms: u64)
    requires
        shell == Shell::PowerShell || shell == Shell::Cmd,
    ensures
        begun(shell, ToolView::ManPage { command }, timeout_ms) == StepView::Done(unavailable()),
{
}

} // verus!
