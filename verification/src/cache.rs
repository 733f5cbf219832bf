//! The list of the tools found on the machine, as it is kept between runs.

use vstd::prelude::*;
use vstd::string::StringExecFns;
use crate::json::{JsonKind, JsonMember, JsonMemberView, find_member, json_members, json_quoted,
    member_named, member_views, quote, read_members};
use crate::text::concat2;
use crate::textmap::TextMap;

verus! {

/// The name of the file that holds the list.
pub const CACHE_FILE: &'static str = "tools_cache.json";

/// After how many seconds the list is to be made anew: a day.
pub const CACHE_REFRESH_SECS: u64 = 86400;

/// The instant that a text in the format of RFC 3339 names, in milliseconds
/// since the beginning of 1970, as `chrono` reads it; or what `chrono` says
/// is wrong with the text.
pub uninterp spec fn rfc3339_millis(text: Seq<char>) -> Result<i64, Seq<char>>;

/// Reads `text` with `chrono::DateTime::parse_from_rfc3339` and hands out the
/// instant's `timestamp_millis`, or the error's text. Nothing more is claimed
/// than that the result is fixed by `text`.
#[verifier::external_body]
fn read_rfc3339(text: &str) -> (r: Result<i64, String>)
    ensures
        match r {
            Ok(ms) => rfc3339_millis(text@) == Ok::<i64, Seq<char>>(ms),
            Err(e) => rfc3339_millis(text@) == Err::<i64, Seq<char>>(e@),
        },
{
    match chrono::DateTime::parse_from_rfc3339(text) {
        Ok(instant) => Ok(instant.timestamp_millis()),
        Err(e) => Err(e.to_string()),
    }
}

/// What is known of a tool.
#[derive(Debug, Clone, PartialEq, Eq)]
pub struct ToolInfo {
    /// Where the tool's binary lies.
    pub path: String,
    /// What the tool says it is.
    pub desc: String,
}

/// What is known of a tool, as sequences of characters.
pub struct ToolInfoView {
    pub path: Seq<char>,
    pub desc: Seq<char>,
}

impl View for ToolInfo {
    type V = ToolInfoView;

    open spec fn view(&self) -> ToolInfoView {
        ToolInfoView { path: self.path@, desc: self.desc@ }
    }
}

/// The tools found on the machine, by name, and when the list was made.
#[derive(Debug, Clone, PartialEq, Eq)]
pub struct ToolsCache {
    /// When the list was made, in the format of RFC 3339.
    pub last_updated: String,
    /// The tools, by name.
    pub tools: TextMap<ToolInfo>,
}

/// How many whole seconds lie between two instants given in milliseconds;
/// none where the second is not after the first.
pub open spec fn seconds_between(then_ms: i64, now_ms: i64) -> u64 {
    if now_ms <= then_ms {
        0
    } else {
        ((now_ms - then_ms) / 1000) as u64
    }
}

/// The age in seconds at `now_ms` of a list made at `last_updated`, or why it
/// cannot be told.
pub open spec fn age_of(last_updated: Seq<char>, now_ms: i64) -> Result<u64, Seq<char>> {
    match rfc3339_millis(last_updated) {
        Ok(then_ms) => Ok(seconds_between(then_ms, now_ms)),
        Err(e) => Err("Invalid timestamp: "@ + e),
    }
}

/// Whether a list of that age is to be made anew: it is a day old or older, or
/// its age cannot be told.
pub open spec fn is_due(age: Result<u64, Seq<char>>) -> bool {
    match age {
        Ok(seconds) => seconds >= CACHE_REFRESH_SECS,
        Err(_) => true,
    }
}

/// How many whole seconds lie between two instants given in milliseconds.
pub fn whole_seconds(then_ms: i64, now_ms: i64) -> (r: u64)
    ensures
        r == seconds_between(then_ms, now_ms),
{
    if now_ms <= then_ms {
        0
    } else {
        let delta: i128 = now_ms as i128 - then_ms as i128;
        (delta / 1000) as u64
    }
}

impl ToolsCache {
    /// An empty list made at `now`, a time in the format of RFC 3339.
    pub fn new(now: String) -> (r: Self)
        ensures
            r.last_updated@ == now@,
            r.tools@ == Map::<Seq<char>, ToolInfoView>::empty(),
    {
        ToolsCache { last_updated: now, tools: TextMap::new() }
    }

    /// The age of the list in seconds at `now_ms`, given in milliseconds
    /// since the beginning of 1970.
    pub fn age(&self, now_ms: i64) -> (r: Result<u64, String>)
        ensures
            match r {
                Ok(seconds) => age_of(self.last_updated@, now_ms) == Ok::<u64, Seq<char>>(seconds),
                Err(e) => age_of(self.last_updated@, now_ms) == Err::<u64, Seq<char>>(e@),
            },
    {
        match read_rfc3339(self.last_updated.as_str()) {
            Ok(then_ms) => Ok(whole_seconds(then_ms, now_ms)),
            Err(e) => Err(concat2("Invalid timestamp: ", e.as_str())),
        }
    }

    /// Whether the list is to be made anew at `now_ms`.
    pub fn needs_refresh(&self, now_ms: i64) -> (b: bool)
        ensures
            b == is_due(age_of(self.last_updated@, now_ms)),
    {
        match self.age(now_ms) {
            Ok(seconds) => seconds >= CACHE_REFRESH_SECS,
            Err(_) => true,
        }
    }

    /// Notes that the list was made at `now`.
    pub fn update_timestamp(&mut self, now: String)
        ensures
            final(self).last_updated@ == now@,
            final(self).tools == old(self).tools,
    {
        self.last_updated = now;
    }
}

/// A list that is a day old or older is due, and a younger one is not.
pub proof fn law_refresh_after_a_day(then_ms: i64, now_ms: i64)
    ensures
        is_due(Ok(seconds_between(then_ms, now_ms))) <==> now_ms - then_ms >= 86400000,
{
}

/// The tool that the members of an object describe.
pub open spec fn info_of(members: Option<Seq<JsonMemberView>>) -> Option<ToolInfoView> {
    match members {
        None => None,
        Some(ms) => match (member_named(ms, "path"@), member_named(ms, "desc"@)) {
            (Some(path), Some(desc)) => if path.kind == JsonKind::Text && desc.kind
                == JsonKind::Text {
                Some(ToolInfoView { path: path.body, desc: desc.body })
            } else {
                None
            },
            _ => None,
        },
    }
}

/// The tools that the members of an object describe, by name; `None` where
/// one of them describes no tool.
pub open spec fn table_of(members: Seq<JsonMemberView>) -> Option<Map<Seq<char>, ToolInfoView>>
    decreases members.len(),
{
    if members.len() == 0 {
        Some(Map::empty())
    } else {
        let last = members.last();
        match table_of(members.drop_last()) {
            None => None,
            Some(head) => if last.kind == JsonKind::Object {
                match info_of(json_members(last.body)) {
                    Some(info) => Some(head.insert(last.key, info)),
                    None => None,
                }
            } else {
                None
            },
        }
    }
}

/// The tool that the members of an object describe.
pub fn info_from_members(members: Option<Vec<JsonMember>>) -> (r: Option<ToolInfo>)
    ensures
        match r {
            Some(info) => info_of(
                match members {
                    Some(ms) => Some(member_views(ms@)),
                    None => None,
                },
            ) == Some(info@),
            None => info_of(
                match members {
                    Some(ms) => Some(member_views(ms@)),
                    None => None,
                },
            ) is None,
        },
{
    let ms = match members {
        Some(ms) => ms,
        None => {
            return None;
        },
    };
    match (find_member(&ms, "path"), find_member(&ms, "desc")) {
        (Some(i), Some(j)) => {
            if matches!(ms[i].kind, JsonKind::Text) && matches!(ms[j].kind, JsonKind::Text) {
                Some(ToolInfo { path: ms[i].body.clone(), desc: ms[j].body.clone() })
            } else {
                None
            }
        },
        _ => None,
    }
}

/// The list that a file's content holds: a JSON object with the time
/// `last_updated` and the object `tools`, which describes each tool by name.
pub open spec fn cache_in(content: Seq<char>) -> Option<(Seq<char>, Map<Seq<char>, ToolInfoView>)> {
    match json_members(content) {
        None => None,
        Some(ms) => match (member_named(ms, "last_updated"@), member_named(ms, "tools"@)) {
            (Some(stamp), Some(tools)) => if stamp.kind == JsonKind::Text && tools.kind
                == JsonKind::Object {
                match json_members(tools.body) {
                    Some(entries) => match table_of(entries) {
                        Some(table) => Some((stamp.body, table)),
                        None => None,
                    },
                    None => None,
                }
            } else {
                None
            },
            _ => None,
        },
    }
}

/// The list that a file's content holds.
pub fn parse_cache(content: &str) -> (r: Result<ToolsCache, String>)
    ensures
        match r {
            Ok(cache) => cache_in(content@) == Some((cache.last_updated@, cache.tools@)),
            Err(e) => cache_in(content@) is None && e@ == "Failed to parse cache"@,
        },
{
    let ms = match read_members(content) {
        Some(ms) => ms,
        None => {
            return Err("Failed to parse cache".to_owned());
        },
    };
    let (i, j) = match (find_member(&ms, "last_updated"), find_member(&ms, "tools")) {
        (Some(i), Some(j)) => (i, j),
        _ => {
            return Err("Failed to parse cache".to_owned());
        },
    };
    if !(matches!(ms[i].kind, JsonKind::Text) && matches!(ms[j].kind, JsonKind::Object)) {
        return Err("Failed to parse cache".to_owned());
    }
    let entries = match read_members(ms[j].body.as_str()) {
        Some(entries) => entries,
        None => {
            return Err("Failed to parse cache".to_owned());
        },
    };
    let mut tools: TextMap<ToolInfo> = TextMap::new();
    let mut k: usize = 0;
    let ghost all = member_views(entries@);
    assert(all.take(0) =~= Seq::<JsonMemberView>::empty());
    while k < entries.len()
        invariant
            k <= entries.len(),
            all == member_views(entries@),
            table_of(all.take(k as int)) == Some(tools@),
            i < ms.len(),
            j < ms.len(),
            json_members(content@) == Some(member_views(ms@)),
            member_named(member_views(ms@), "last_updated"@) == Some(ms@[i as int]@),
            member_named(member_views(ms@), "tools"@) == Some(ms@[j as int]@),
            ms@[i as int].kind == JsonKind::Text,
            ms@[j as int].kind == JsonKind::Object,
            json_members(ms@[j as int].body@) == Some(all),
        decreases entries.len() - k,
    {
        let ghost next = all.take(k + 1);
        assert(next.drop_last() =~= all.take(k as int));
        assert(next.last() == entries@[k as int]@);
        let info = if matches!(entries[k].kind, JsonKind::Object) {
            info_from_members(read_members(entries[k].body.as_str()))
        } else {
            None
        };
        match info {
            Some(info) => {
                tools.insert(entries[k].key.clone(), info);
            },
            None => {
                proof {
                    assert(table_of(next) is None);
                    lemma_table_stays_none(all, k + 1);
                }
                return Err("Failed to parse cache".to_owned());
            },
        }
        k += 1;
    }
    assert(all.take(entries.len() as int) =~= all);
    Ok(ToolsCache { last_updated: ms[i].body.clone(), tools })
}

/// Members that describe no table do not describe one with more members
/// behind them.
proof fn lemma_table_stays_none(members: Seq<JsonMemberView>, n: int)
    requires
        0 <= n <= members.len(),
        table_of(members.take(n)) is None,
    ensures
        table_of(members) is None,
    decreases members.len() - n,
{
    if n < members.len() {
        assert(members.take(n + 1).drop_last() =~= members.take(n));
        lemma_table_stays_none(members, n + 1);
    } else {
        assert(members.take(n) =~= members);
    }
}

/// The list that a file's content holds; where there is no file, or none
/// that holds a list, an empty list made at `now`.
pub fn load_or_create_cache(content: Option<&str>, now: String) -> (r: ToolsCache)
    ensures
        match content {
            Some(text) => match cache_in(text@) {
                Some(found) => (r.last_updated@, r.tools@) == found,
                None => r.last_updated@ == now@ && r.tools@ == Map::<
                    Seq<char>,
                    ToolInfoView,
                >::empty(),
            },
            None => r.last_updated@ == now@ && r.tools@ == Map::<Seq<char>, ToolInfoView>::empty(),
        },
{
    match content {
        Some(text) => match parse_cache(text) {
            Ok(cache) => cache,
            Err(_) => ToolsCache::new(now),
        },
        None => ToolsCache::new(now),
    }
}

/// One tool as a member of the object `tools`, on five lines.
pub open spec fn tool_json(name: Seq<char>, info: ToolInfoView) -> Seq<char> {
    "    "@ + json_quoted(name) + ": {\n      \"path\": "@ + json_quoted(info.path)
        + ",\n      \"desc\": "@ + json_quoted(info.desc) + "\n    }"@
}

/// The tools of the given names as members of the object `tools`, with a
/// comma and a line feed between them.
pub open spec fn tools_json(names: Seq<Seq<char>>, tools: Map<Seq<char>, ToolInfoView>) -> Seq<char>
    decreases names.len(),
{
    if names.len() == 0 {
        Seq::empty()
    } else if names.len() == 1 {
        tool_json(names[0], tools[names[0]])
    } else {
        tools_json(names.drop_last(), tools) + ",\n"@ + tool_json(names.last(), tools[names.last()])
    }
}

/// The list as JSON, indented by two spaces, the tools in the order of their
/// names.
pub open spec fn cache_json(
    last_updated: Seq<char>,
    names: Seq<Seq<char>>,
    tools: Map<Seq<char>, ToolInfoView>,
) -> Seq<char> {
    "{\n  \"last_updated\": "@ + json_quoted(last_updated) + ",\n  \"tools\": "@ + (if names.len()
        == 0 {
        "{}"@
    } else {
        "{\n"@ + tools_json(names, tools) + "\n  }"@
    }) + "\n}"@
}

/// The list as JSON, to be written to its file.
pub fn render_cache(cache: &ToolsCache) -> (r: String)
    ensures
        r@ == cache_json(cache.last_updated@, cache.tools.keys(), cache.tools@),
{
    let mut out = String::new();
    out.append("{\n  \"last_updated\": ");
    out.append(quote(cache.last_updated.as_str()).as_str());
    out.append(",\n  \"tools\": ");
    let n: usize = cache.tools.len();
    let ghost names = cache.tools.keys();
    let ghost tools = cache.tools@;
    if n == 0 {
        out.append("{}");
    } else {
        out.append("{\n");
        let ghost head = out@;
        let mut i: usize = 0;
        assert(names.take(0) =~= Seq::<Seq<char>>::empty());
        while i < n
            invariant
                i <= n,
                n == names.len(),
                names == cache.tools.keys(),
                tools == cache.tools@,
                out@ == head + tools_json(names.take(i as int), tools),
            decreases n - i,
        {
            let ghost before = out@;
            let ghost next = names.take(i + 1);
            assert(next.drop_last() =~= names.take(i as int));
            assert(next.last() == names[i as int]);
            if i > 0 {
                out.append(",\n");
            }
            let name = cache.tools.key_at(i);
            let info = cache.tools.value_at(i);
            out.append("    ");
            out.append(quote(name.as_str()).as_str());
            out.append(": {\n      \"path\": ");
            out.append(quote(info.path.as_str()).as_str());
            out.append(",\n      \"desc\": ");
            out.append(quote(info.desc.as_str()).as_str());
            out.append("\n    }");
            proof {
                let item = tool_json(names[i as int], tools[names[i as int]]);
                if i > 0 {
                    assert(out@ =~= before + ",\n"@ + item);
                } else {
                    assert(out@ =~= before + item);
                    assert(next[0] == names[0]);
                }
                assert(out@ =~= head + tools_json(next, tools));
            }
            i += 1;
        }
        assert(names.take(n as int) =~= names);
        out.append("\n  }");
    }
    out.append("\n}");
    assert(out@ =~= cache_json(cache.last_updated@, names, tools));
    out
}

} // verus!
