//! Reading what the model wrote: a request for a tool, or a final answer.

use vstd::prelude::*;
use crate::args::{ToolArgs, args_from_members, args_of};
use crate::json::{JsonKind, JsonMember, JsonMemberView, find_member, json_members, member_named,
    member_views, read_members};
use crate::text::{chars_of, find_str, first_line, first_line_of, lemma_trimmed_end,
    lemma_trimmed_start, position_of, slice, strip_prefix, text_of, trim, trimmed, trimmed_end,
    trimmed_start, without_prefix};

verus! {

/// What the model's output asks for.
#[derive(Debug, Clone, PartialEq)]
pub enum ModelResponse {
    /// The model asks for a tool to be run.
    ToolCall { name: String, args: ToolArgs },
    /// The model gives its answer.
    FinalAnswer(String),
}

/// A response, as sequences of characters.
pub enum ResponseView {
    ToolCall { name: Seq<char>, args: Map<Seq<char>, Seq<char>> },
    FinalAnswer(Seq<char>),
}

impl View for ModelResponse {
    type V = ResponseView;

    open spec fn view(&self) -> ResponseView {
        match self {
            ModelResponse::ToolCall { name, args } => ResponseView::ToolCall {
                name: name@,
                args: args@,
            },
            ModelResponse::FinalAnswer(text) => ResponseView::FinalAnswer(text@),
        }
    }
}

/// What the members of a tool-call payload amount to.
#[derive(Debug, Clone, PartialEq)]
pub enum PayloadShape {
    /// No tool call: the name is missing or no string, or the arguments are no object.
    Invalid,
    /// A tool call without arguments.
    Bare { name: String },
    /// A tool call whose arguments are the members of the object `body`.
    WithArguments { name: String, body: String },
}

/// A payload's shape, as sequences of characters.
pub enum ShapeView {
    Invalid,
    Bare { name: Seq<char> },
    WithArguments { name: Seq<char>, body: Seq<char> },
}

impl View for PayloadShape {
    type V = ShapeView;

    open spec fn view(&self) -> ShapeView {
        match self {
            PayloadShape::Invalid => ShapeView::Invalid,
            PayloadShape::Bare { name } => ShapeView::Bare { name: name@ },
            PayloadShape::WithArguments { name, body } => ShapeView::WithArguments {
                name: name@,
                body: body@,
            },
        }
    }
}

/// `s` up to the first `marker`, trimmed; `s` itself where it holds none.
pub open spec fn cut_at(s: Seq<char>, marker: Seq<char>) -> Seq<char> {
    match position_of(s, marker) {
        Some(i) => trimmed(s.take(i)),
        None => s,
    }
}

/// `s` without its thinking span. Where an opening and a closing marker are
/// both there, what follows the closing one is kept, trimmed; where nothing
/// but white space follows, what stood before the opening one.
pub open spec fn without_thinking(s: Seq<char>) -> Seq<char> {
    match (position_of(s, "<think>"@), position_of(s, "</think>"@)) {
        (Some(open), Some(close)) => {
            let after = trimmed(s.skip(close + "</think>"@.len()));
            if after.len() == 0 {
                trimmed(s.take(open))
            } else {
                after
            }
        },
        _ => s,
    }
}

/// `s` without the leading artifact `prefix`, trimmed; `s` itself where it
/// does not begin with it.
pub open spec fn without_artifact(s: Seq<char>, prefix: Seq<char>) -> Seq<char> {
    match without_prefix(s, prefix) {
        Some(rest) => trimmed(rest),
        None => s,
    }
}

/// `s` with each known leading artifact taken off in turn.
pub open spec fn without_artifacts(s: Seq<char>) -> Seq<char> {
    let a = without_artifact(s, "command >"@);
    let b = without_artifact(a, "command>"@);
    let c = without_artifact(b, "command 2>&1"@);
    let d = without_artifact(c, "Command:"@);
    let e = without_artifact(d, "Output:"@);
    without_artifact(e, ">>>"@)
}

/// The answer that stands in raw output: the output is trimmed, cut at the
/// first turn marker of either kind, freed of its thinking span and of leading
/// artifacts, and its first line is kept, trimmed.
pub open spec fn cleaned(s: Seq<char>) -> Seq<char> {
    let cut = cut_at(cut_at(trimmed(s), "<|im_end|>"@), "<|im_start|>"@);
    trimmed(first_line_of(without_artifacts(without_thinking(cut))))
}

/// What stands between the first `open` and the first `close`, trimmed, where
/// both are there and `close` begins after the end of `open`.
pub open spec fn span_between(s: Seq<char>, open: Seq<char>, close: Seq<char>) -> Option<
    Seq<char>,
> {
    match (position_of(s, open), position_of(s, close)) {
        (Some(a), Some(b)) => if a + open.len() <= b {
            Some(trimmed(s.subrange(a + open.len(), b)))
        } else {
            None
        },
        _ => None,
    }
}

/// The shape of a payload with the given members. The name is the string
/// member `name`. The arguments are the member `arguments` where there is one,
/// whatever `args` holds; else the member `args`; either must be an object.
pub open spec fn shape_of(members: Seq<JsonMemberView>) -> ShapeView {
    match member_named(members, "name"@) {
        Some(name) => if name.kind == JsonKind::Text {
            match member_named(members, "arguments"@) {
                Some(a) => if a.kind == JsonKind::Object {
                    ShapeView::WithArguments { name: name.body, body: a.body }
                } else {
                    ShapeView::Invalid
                },
                None => match member_named(members, "args"@) {
                    Some(a) => if a.kind == JsonKind::Object {
                        ShapeView::WithArguments { name: name.body, body: a.body }
                    } else {
                        ShapeView::Invalid
                    },
                    None => ShapeView::Bare { name: name.body },
                },
            }
        } else {
            ShapeView::Invalid
        },
        None => ShapeView::Invalid,
    }
}

/// The tool call that a payload holds: its text must be a JSON object of a
/// valid shape, and the text of its arguments a JSON object too.
pub open spec fn call_in(payload: Seq<char>) -> Option<ResponseView> {
    match json_members(payload) {
        None => None,
        Some(members) => match shape_of(members) {
            ShapeView::Invalid => None,
            ShapeView::Bare { name } => Some(ResponseView::ToolCall { name, args: Map::empty() }),
            ShapeView::WithArguments { name, body } => match json_members(body) {
                None => None,
                Some(inner) => Some(ResponseView::ToolCall { name, args: args_of(inner) }),
            },
        },
    }
}

/// The tool call that stands in trimmed output.
pub open spec fn tool_call_in(s: Seq<char>) -> Option<ResponseView> {
    match span_between(s, "<tool_call>"@, "</tool_call>"@) {
        Some(payload) => call_in(payload),
        None => None,
    }
}

/// The answer that stands between answer tags in trimmed output.
pub open spec fn answer_in(s: Seq<char>) -> Option<Seq<char>> {
    match span_between(s, "<answer>"@, "</answer>"@) {
        Some(inner) => Some(cleaned(inner)),
        None => None,
    }
}

/// What raw output asks for. A tool call comes first; then a tagged answer;
/// else the whole output is the answer.
pub open spec fn parsed(output: Seq<char>) -> ResponseView {
    let s = trimmed(output);
    match tool_call_in(s) {
        Some(call) => call,
        None => match answer_in(s) {
            Some(answer) => ResponseView::FinalAnswer(answer),
            None => ResponseView::FinalAnswer(cleaned(s)),
        },
    }
}

/// `s` up to the first `marker`, trimmed.
fn cut(s: Vec<char>, marker: &str) -> (r: Vec<char>)
    ensures
        r@ == cut_at(s@, marker@),
{
    match find_str(&s, marker) {
        Some(i) => {
            let head = slice(&s, 0, i);
            assert(s@.subrange(0, i as int) =~= s@.take(i as int));
            trim(&head)
        },
        None => s,
    }
}

/// `s` without its thinking span.
fn drop_thinking(s: Vec<char>) -> (r: Vec<char>)
    ensures
        r@ == without_thinking(s@),
{
    let open = find_str(&s, "<think>");
    let close = find_str(&s, "</think>");
    match (open, close) {
        (Some(a), Some(b)) => {
            let width: usize = chars_of("</think>").len();
            let tail = slice(&s, b + width, s.len());
            assert(s@.subrange(b + width, s.len() as int) =~= s@.skip(b + width));
            let after = trim(&tail);
            if after.len() == 0 {
                let head = slice(&s, 0, a);
                assert(s@.subrange(0, a as int) =~= s@.take(a as int));
                trim(&head)
            } else {
                after
            }
        },
        _ => s,
    }
}

/// `s` without the leading artifact `prefix`.
fn drop_artifact(s: Vec<char>, prefix: &str) -> (r: Vec<char>)
    ensures
        r@ == without_artifact(s@, prefix@),
{
    let p = chars_of(prefix);
    match strip_prefix(&s, &p) {
        Some(rest) => trim(&rest),
        None => s,
    }
}

/// The answer that stands in raw output.
fn clean_chars(s: &Vec<char>) -> (r: Vec<char>)
    ensures
        r@ == cleaned(s@),
{
    let t = trim(s);
    let t = cut(t, "<|im_end|>");
    let t = cut(t, "<|im_start|>");
    let t = drop_thinking(t);
    let t = drop_artifact(t, "command >");
    let t = drop_artifact(t, "command>");
    let t = drop_artifact(t, "command 2>&1");
    let t = drop_artifact(t, "Command:");
    let t = drop_artifact(t, "Output:");
    let t = drop_artifact(t, ">>>");
    let line = first_line(&t);
    trim(&line)
}

/// The answer that stands in raw output, cleaned of what the model is known
/// to write around it.
pub fn clean_output(output: &str) -> (r: String)
    ensures
        r@ == cleaned(output@),
{
    let s = chars_of(output);
    let r = clean_chars(&s);
    text_of(&r)
}

/// What stands between the first `open` and the first `close`, trimmed.
fn between(s: &Vec<char>, open: &str, close: &str) -> (r: Option<Vec<char>>)
    ensures
        match r {
            Some(inner) => span_between(s@, open@, close@) == Some(inner@),
            None => span_between(s@, open@, close@) is None,
        },
{
    let a = find_str(s, open);
    let b = find_str(s, close);
    match (a, b) {
        (Some(a), Some(b)) => {
            let width: usize = chars_of(open).len();
            if b >= width && a <= b - width {
                let inner = slice(s, a + width, b);
                Some(trim(&inner))
            } else {
                None
            }
        },
        _ => None,
    }
}

/// The answer that stands between answer tags in trimmed output.
fn answer_chars(s: &Vec<char>) -> (r: Option<Vec<char>>)
    ensures
        match r {
            Some(answer) => answer_in(s@) == Some(answer@),
            None => answer_in(s@) is None,
        },
{
    match between(s, "<answer>", "</answer>") {
        Some(inner) => Some(clean_chars(&inner)),
        None => None,
    }
}

/// The answer that stands between answer tags, cleaned.
pub fn extract_answer(output: &str) -> (r: Option<String>)
    ensures
        match r {
            Some(answer) => answer_in(output@) == Some(answer@),
            None => answer_in(output@) is None,
        },
{
    let s = chars_of(output);
    match answer_chars(&s) {
        Some(answer) => Some(text_of(&answer)),
        None => None,
    }
}

/// The shape of a payload with the given members.
pub fn payload_shape(members: &Vec<JsonMember>) -> (r: PayloadShape)
    ensures
        r@ == shape_of(member_views(members@)),
{
    let name = match find_member(members, "name") {
        Some(i) => {
            if !matches!(members[i].kind, JsonKind::Text) {
                return PayloadShape::Invalid;
            }
            members[i].body.clone()
        },
        None => {
            return PayloadShape::Invalid;
        },
    };
    let holder = match find_member(members, "arguments") {
        Some(i) => Some(i),
        None => find_member(members, "args"),
    };
    match holder {
        Some(i) => {
            if matches!(members[i].kind, JsonKind::Object) {
                PayloadShape::WithArguments { name, body: members[i].body.clone() }
            } else {
                PayloadShape::Invalid
            }
        },
        None => PayloadShape::Bare { name },
    }
}

/// The tool call that a payload holds.
pub fn decode_call(payload: &str) -> (r: Option<ModelResponse>)
    ensures
        match r {
            Some(call) => call_in(payload@) == Some(call@),
            None => call_in(payload@) is None,
        },
{
    let members = match read_members(payload) {
        Some(members) => members,
        None => {
            return None;
        },
    };
    match payload_shape(&members) {
        PayloadShape::Invalid => None,
        PayloadShape::Bare { name } => Some(ModelResponse::ToolCall { name, args: ToolArgs::new() }),
        PayloadShape::WithArguments { name, body } => match read_members(body.as_str()) {
            Some(inner) => Some(
                ModelResponse::ToolCall { name, args: args_from_members(&inner) },
            ),
            None => None,
        },
    }
}

/// The tool call that stands in trimmed output.
fn tool_call_chars(s: &Vec<char>) -> (r: Option<ModelResponse>)
    ensures
        match r {
            Some(call) => tool_call_in(s@) == Some(call@),
            None => tool_call_in(s@) is None,
        },
{
    match between(s, "<tool_call>", "</tool_call>") {
        Some(payload) => {
            let text = text_of(&payload);
            decode_call(text.as_str())
        },
        None => None,
    }
}

/// The tool call that stands between tool-call tags.
pub fn extract_tool_call(output: &str) -> (r: Option<ModelResponse>)
    ensures
        match r {
            Some(call) => tool_call_in(output@) == Some(call@),
            None => tool_call_in(output@) is None,
        },
{
    let s = chars_of(output);
    tool_call_chars(&s)
}

/// What raw output asks for. Never fails: output that holds neither a valid
/// tool call nor a tagged answer is taken as the answer itself.
pub fn parse_response(output: &str) -> (r: ModelResponse)
    ensures
        r@ == parsed(output@),
{
    let raw = chars_of(output);
    let s = trim(&raw);
    if let Some(call) = tool_call_chars(&s) {
        return call;
    }
    if let Some(answer) = answer_chars(&s) {
        return ModelResponse::FinalAnswer(text_of(&answer));
    }
    let answer = clean_chars(&s);
    ModelResponse::FinalAnswer(text_of(&answer))
}

/// Trimming what is trimmed changes nothing.
pub proof fn lemma_trimmed_twice(s: Seq<char>)
    ensures
        trimmed(trimmed(s)) == trimmed(s),
{
    let u = trimmed_start(s);
    lemma_trimmed_start(s);
    lemma_trimmed_end(u);
    let t = trimmed_end(u);
    if t.len() > 0 {
        assert(t[0] == u[0]);
    }
}

/// A needle that stands nowhere in `s` stands nowhere in a part of `s`.
pub proof fn lemma_absent_in_part(s: Seq<char>, needle: Seq<char>, lo: int, hi: int)
    requires
        0 <= lo <= hi <= s.len(),
        position_of(s, needle) is None,
    ensures
        position_of(s.subrange(lo, hi), needle) is None,
{
    let part = s.subrange(lo, hi);
    crate::text::lemma_position_is_first(s, needle, 0);
    crate::text::lemma_position_is_first(part, needle, 0);
    if let Some(p) = position_of(part, needle) {
        assert(part.subrange(p, p + needle.len()) =~= s.subrange(lo + p, lo + p + needle.len()));
        assert(crate::text::occurs_at(s, needle, lo + p));
    }
}

/// A needle that stands nowhere in `s` stands nowhere in `s` trimmed.
pub proof fn lemma_absent_in_trimmed(s: Seq<char>, needle: Seq<char>)
    requires
        position_of(s, needle) is None,
    ensures
        position_of(trimmed(s), needle) is None,
{
    let u = trimmed_start(s);
    lemma_trimmed_start(s);
    lemma_trimmed_end(u);
    let d = s.len() - u.len();
    let n = trimmed_end(u).len() as int;
    assert(s.skip(d).take(n) =~= s.subrange(d, d + n));
    lemma_absent_in_part(s, needle, d, d + n);
}

/// Output that holds no opening tag of a tool call and none of an answer is
/// itself the answer: the response is the final answer made of the first line
/// of the cleaned, trimmed output.
pub proof fn law_plain_output_is_answer(output: Seq<char>)
    requires
        position_of(output, "<tool_call>"@) is None,
        position_of(output, "<answer>"@) is None,
    ensures
        parsed(output) == ResponseView::FinalAnswer(cleaned(output)),
        cleaned(output) == trimmed(
            first_line_of(
                without_artifacts(
                    without_thinking(
                        cut_at(cut_at(trimmed(output), "<|im_end|>"@), "<|im_start|>"@),
                    ),
                ),
            ),
        ),
{
    lemma_absent_in_trimmed(output, "<tool_call>"@);
    lemma_absent_in_trimmed(output, "<answer>"@);
    lemma_trimmed_twice(output);
}

/// A well-formed tool call is returned as it is written: where the payload
/// between the tags is a JSON object with a string `name` and an object
/// `arguments`, the response is a tool call of that name with exactly the
/// members of `arguments` as its arguments.
pub proof fn law_well_formed_call(
    output: Seq<char>,
    payload: Seq<char>,
    members: Seq<JsonMemberView>,
    name: Seq<char>,
    body: Seq<char>,
    arguments: Seq<JsonMemberView>,
)
    requires
        span_between(trimmed(output), "<tool_call>"@, "</tool_call>"@) == Some(payload),
        json_members(payload) == Some(members),
        member_named(members, "name"@) == Some(
            JsonMemberView { key: "name"@, kind: JsonKind::Text, body: name },
        ),
        member_named(members, "arguments"@) == Some(
            JsonMemberView { key: "arguments"@, kind: JsonKind::Object, body },
        ),
        json_members(body) == Some(arguments),
    ensures
        parsed(output) == (ResponseView::ToolCall { name, args: args_of(arguments) }),
{
}

/// Where a payload has a member `arguments`, its member `args` has no say:
/// two payloads that agree on `name` and on `arguments` have the same shape.
pub proof fn law_arguments_win(members: Seq<JsonMemberView>, other: Seq<JsonMemberView>)
    requires
        member_named(members, "arguments"@) is Some,
        member_named(other, "arguments"@) == member_named(members, "arguments"@),
        member_named(other, "name"@) == member_named(members, "name"@),
    ensures
        shape_of(other) == shape_of(members),
{
}

/// A tool call comes before an answer: output that holds a valid tool call
/// is a tool call, whatever else it holds.
pub proof fn law_tool_call_first(output: Seq<char>)
    requires
        tool_call_in(trimmed(output)) is Some,
    ensures
        parsed(output) == tool_call_in(trimmed(output))->0,
{
}

} // verus!
