//! What goes over the daemon's socket: one JSON object to a line, a request
//! one way and a response the other.

use vstd::prelude::*;
use vstd::string::StringExecFns;
use crate::json::{JsonKind, JsonMember, JsonMemberView, find_member, json_members, json_quoted,
    member_named, member_views, quote, read_members};
use crate::text::{chars_of, concat2, concat3, is_str};

verus! {

/// A request for a correction.
#[derive(Debug, Clone, PartialEq, Eq)]
pub struct DaemonRequest {
    /// The command that failed.
    pub command: String,
    /// The shell it failed on.
    pub shell: String,
    /// What the shell said, where it is known.
    pub error: Option<String>,
    /// Whether the daemon is to log what it does.
    pub verbose: bool,
}

/// A request, as sequences of characters.
pub struct DaemonRequestView {
    pub command: Seq<char>,
    pub shell: Seq<char>,
    pub error: Option<Seq<char>>,
    pub verbose: bool,
}

/// The view of a string that may be there.
pub open spec fn text_view(text: Option<String>) -> Option<Seq<char>> {
    match text {
        Some(t) => Some(t@),
        None => None,
    }
}

impl View for DaemonRequest {
    type V = DaemonRequestView;

    open spec fn view(&self) -> DaemonRequestView {
        DaemonRequestView {
            command: self.command@,
            shell: self.shell@,
            error: text_view(self.error),
            verbose: self.verbose,
        }
    }
}

/// The daemon's answer to a request.
#[derive(Debug, Clone, PartialEq, Eq)]
pub struct DaemonResponse {
    /// Whether the daemon did what it was asked.
    pub success: bool,
    /// The corrected command; empty on failure.
    pub output: String,
    /// Why the daemon failed.
    pub error: Option<String>,
}

/// A response, as sequences of characters.
pub struct DaemonResponseView {
    pub success: bool,
    pub output: Seq<char>,
    pub error: Option<Seq<char>>,
}

impl View for DaemonResponse {
    type V = DaemonResponseView;

    open spec fn view(&self) -> DaemonResponseView {
        DaemonResponseView {
            success: self.success,
            output: self.output@,
            error: text_view(self.error),
        }
    }
}

/// What a line from a client is.
#[derive(Debug, Clone, PartialEq, Eq)]
pub enum Incoming {
    /// The request to stop.
    Stop,
    /// A request for a correction.
    Correct(DaemonRequest),
    /// Neither; with what is wrong.
    Malformed(String),
}

/// What a line from a client is, as sequences of characters.
pub enum IncomingView {
    Stop,
    Correct(DaemonRequestView),
    Malformed(Seq<char>),
}

impl View for Incoming {
    type V = IncomingView;

    open spec fn view(&self) -> IncomingView {
        match self {
            Incoming::Stop => IncomingView::Stop,
            Incoming::Correct(request) => IncomingView::Correct(request@),
            Incoming::Malformed(reason) => IncomingView::Malformed(reason@),
        }
    }
}

/// The string that a member must hold.
pub open spec fn text_field(members: Seq<JsonMemberView>, key: Seq<char>) -> Result<
    Seq<char>,
    Seq<char>,
> {
    match member_named(members, key) {
        Some(m) => if m.kind == JsonKind::Text {
            Ok(m.body)
        } else {
            Err("invalid type for field `"@ + key + "`: expected a string"@)
        },
        None => Err("missing field `"@ + key + "`"@),
    }
}

/// The string that a member may hold: none where the member is missing or
/// `null`.
pub open spec fn optional_text_field(members: Seq<JsonMemberView>, key: Seq<char>) -> Result<
    Option<Seq<char>>,
    Seq<char>,
> {
    match member_named(members, key) {
        Some(m) => if m.kind == JsonKind::Text {
            Ok(Some(m.body))
        } else if m.kind == JsonKind::Other && m.body == "null"@ {
            Ok(None)
        } else {
            Err("invalid type for field `"@ + key + "`: expected a string or null"@)
        },
        None => Ok(None),
    }
}

/// The truth value that a member must hold.
pub open spec fn bool_field(members: Seq<JsonMemberView>, key: Seq<char>) -> Result<
    bool,
    Seq<char>,
> {
    match member_named(members, key) {
        Some(m) => if m.kind == JsonKind::Other && m.body == "true"@ {
            Ok(true)
        } else if m.kind == JsonKind::Other && m.body == "false"@ {
            Ok(false)
        } else {
            Err("invalid type for field `"@ + key + "`: expected a boolean"@)
        },
        None => Err("missing field `"@ + key + "`"@),
    }
}

/// The request that the members of an object make up, or what is wrong.
pub open spec fn request_of(members: Seq<JsonMemberView>) -> Result<DaemonRequestView, Seq<char>> {
    match text_field(members, "command"@) {
        Err(e) => Err(e),
        Ok(command) => match text_field(members, "shell"@) {
            Err(e) => Err(e),
            Ok(shell) => match optional_text_field(members, "error"@) {
                Err(e) => Err(e),
                Ok(error) => match bool_field(members, "verbose"@) {
                    Err(e) => Err(e),
                    Ok(verbose) => Ok(DaemonRequestView { command, shell, error, verbose }),
                },
            },
        },
    }
}

/// Whether the members of an object ask the daemon to stop: a member `stop`
/// that holds `true`.
pub open spec fn asks_to_stop(members: Seq<JsonMemberView>) -> bool {
    bool_field(members, "stop"@) == Ok::<bool, Seq<char>>(true)
}

/// What a line is, given the members that it holds as a JSON object.
pub open spec fn classified(members: Option<Seq<JsonMemberView>>) -> IncomingView {
    match members {
        None => IncomingView::Malformed("expected a JSON object"@),
        Some(ms) => if asks_to_stop(ms) {
            IncomingView::Stop
        } else {
            match request_of(ms) {
                Ok(request) => IncomingView::Correct(request),
                Err(reason) => IncomingView::Malformed(reason),
            }
        },
    }
}

/// The response that the members of an object make up, or what is wrong.
pub open spec fn response_of(members: Seq<JsonMemberView>) -> Result<DaemonResponseView, Seq<char>> {
    match bool_field(members, "success"@) {
        Err(e) => Err(e),
        Ok(success) => match text_field(members, "output"@) {
            Err(e) => Err(e),
            Ok(output) => match optional_text_field(members, "error"@) {
                Err(e) => Err(e),
                Ok(error) => Ok(DaemonResponseView { success, output, error }),
            },
        },
    }
}

/// What a line from the daemon holds, given its members as a JSON object.
pub open spec fn response_read(members: Option<Seq<JsonMemberView>>) -> Result<
    DaemonResponseView,
    Seq<char>,
> {
    match members {
        None => Err("Failed to parse response: expected a JSON object"@),
        Some(ms) => match response_of(ms) {
            Ok(response) => Ok(response),
            Err(reason) => Err("Failed to parse response: "@ + reason),
        },
    }
}

/// A string that may be there, as JSON: quoted, or `null`.
pub open spec fn optional_json(text: Option<Seq<char>>) -> Seq<char> {
    match text {
        Some(t) => json_quoted(t),
        None => "null"@,
    }
}

/// A truth value as JSON.
pub open spec fn bool_json(b: bool) -> Seq<char> {
    if b {
        "true"@
    } else {
        "false"@
    }
}

/// A response as a JSON object.
pub open spec fn response_json(response: DaemonResponseView) -> Seq<char> {
    "{\"success\":"@ + bool_json(response.success) + ",\"output\":"@ + json_quoted(
        response.output,
    ) + ",\"error\":"@ + optional_json(response.error) + "}"@
}

/// A request as a JSON object.
pub open spec fn request_json(request: DaemonRequestView) -> Seq<char> {
    "{\"command\":"@ + json_quoted(request.command) + ",\"shell\":"@ + json_quoted(request.shell)
        + ",\"error\":"@ + optional_json(request.error) + ",\"verbose\":"@ + bool_json(
        request.verbose,
    ) + "}"@
}

/// The string that a member must hold.
fn text_member(members: &Vec<JsonMember>, key: &str) -> (r: Result<String, String>)
    ensures
        match r {
            Ok(t) => text_field(member_views(members@), key@) == Ok::<Seq<char>, Seq<char>>(t@),
            Err(e) => text_field(member_views(members@), key@) == Err::<Seq<char>, Seq<char>>(e@),
        },
{
    match find_member(members, key) {
        Some(i) => {
            if matches!(members[i].kind, JsonKind::Text) {
                Ok(members[i].body.clone())
            } else {
                Err(concat3("invalid type for field `", key, "`: expected a string"))
            }
        },
        None => Err(concat3("missing field `", key, "`")),
    }
}

/// The string that a member may hold.
fn optional_text_member(members: &Vec<JsonMember>, key: &str) -> (r: Result<
    Option<String>,
    String,
>)
    ensures
        match r {
            Ok(t) => optional_text_field(member_views(members@), key@) == Ok::<
                Option<Seq<char>>,
                Seq<char>,
            >(text_view(t)),
            Err(e) => optional_text_field(member_views(members@), key@) == Err::<
                Option<Seq<char>>,
                Seq<char>,
            >(e@),
        },
{
    match find_member(members, key) {
        Some(i) => {
            let body = chars_of(members[i].body.as_str());
            if matches!(members[i].kind, JsonKind::Text) {
                Ok(Some(members[i].body.clone()))
            } else if matches!(members[i].kind, JsonKind::Other) && is_str(&body, "null") {
                Ok(None)
            } else {
                Err(concat3("invalid type for field `", key, "`: expected a string or null"))
            }
        },
        None => Ok(None),
    }
}

/// The truth value that a member must hold.
fn bool_member(members: &Vec<JsonMember>, key: &str) -> (r: Result<bool, String>)
    ensures
        match r {
            Ok(b) => bool_field(member_views(members@), key@) == Ok::<bool, Seq<char>>(b),
            Err(e) => bool_field(member_views(members@), key@) == Err::<bool, Seq<char>>(e@),
        },
{
    match find_member(members, key) {
        Some(i) => {
            let body = chars_of(members[i].body.as_str());
            let other = matches!(members[i].kind, JsonKind::Other);
            if other && is_str(&body, "true") {
                Ok(true)
            } else if other && is_str(&body, "false") {
                Ok(false)
            } else {
                Err(concat3("invalid type for field `", key, "`: expected a boolean"))
            }
        },
        None => Err(concat3("missing field `", key, "`")),
    }
}

/// The request that the members of an object make up, or what is wrong.
pub fn request_from_members(members: &Vec<JsonMember>) -> (r: Result<DaemonRequest, String>)
    ensures
        match r {
            Ok(request) => request_of(member_views(members@)) == Ok::<
                DaemonRequestView,
                Seq<char>,
            >(request@),
            Err(e) => request_of(member_views(members@)) == Err::<DaemonRequestView, Seq<char>>(
                e@,
            ),
        },
{
    let command = match text_member(members, "command") {
        Ok(v) => v,
        Err(e) => {
            return Err(e);
        },
    };
    let shell = match text_member(members, "shell") {
        Ok(v) => v,
        Err(e) => {
            return Err(e);
        },
    };
    let error = match optional_text_member(members, "error") {
        Ok(v) => v,
        Err(e) => {
            return Err(e);
        },
    };
    let verbose = match bool_member(members, "verbose") {
        Ok(v) => v,
        Err(e) => {
            return Err(e);
        },
    };
    Ok(DaemonRequest { command, shell, error, verbose })
}

/// What a line is, given the members that it holds as a JSON object.
pub fn classify(members: Option<Vec<JsonMember>>) -> (r: Incoming)
    ensures
        r@ == classified(
            match members {
                Some(ms) => Some(member_views(ms@)),
                None => None,
            },
        ),
{
    match members {
        None => Incoming::Malformed("expected a JSON object".to_owned()),
        Some(ms) => {
            if let Ok(true) = bool_member(&ms, "stop") {
                return Incoming::Stop;
            }
            match request_from_members(&ms) {
                Ok(request) => Incoming::Correct(request),
                Err(reason) => Incoming::Malformed(reason),
            }
        },
    }
}

/// What a line from a client is.
pub fn read_request(line: &str) -> (r: Incoming)
    ensures
        r@ == classified(json_members(line@)),
{
    classify(read_members(line))
}

/// The response that the members of an object make up, or what is wrong.
pub fn response_from_members(members: Option<Vec<JsonMember>>) -> (r: Result<
    DaemonResponse,
    String,
>)
    ensures
        match r {
            Ok(response) => response_read(
                match members {
                    Some(ms) => Some(member_views(ms@)),
                    None => None,
                },
            ) == Ok::<DaemonResponseView, Seq<char>>(response@),
            Err(e) => response_read(
                match members {
                    Some(ms) => Some(member_views(ms@)),
                    None => None,
                },
            ) == Err::<DaemonResponseView, Seq<char>>(e@),
        },
{
    let ms = match members {
        Some(ms) => ms,
        None => {
            return Err("Failed to parse response: expected a JSON object".to_owned());
        },
    };
    let success = match bool_member(&ms, "success") {
        Ok(v) => v,
        Err(e) => {
            return Err(concat2("Failed to parse response: ", e.as_str()));
        },
    };
    let output = match text_member(&ms, "output") {
        Ok(v) => v,
        Err(e) => {
            return Err(concat2("Failed to parse response: ", e.as_str()));
        },
    };
    let error = match optional_text_member(&ms, "error") {
        Ok(v) => v,
        Err(e) => {
            return Err(concat2("Failed to parse response: ", e.as_str()));
        },
    };
    Ok(DaemonResponse { success, output, error })
}

/// What a line from the daemon holds.
pub fn read_response(line: &str) -> (r: Result<DaemonResponse, String>)
    ensures
        match r {
            Ok(response) => response_read(json_members(line@)) == Ok::<
                DaemonResponseView,
                Seq<char>,
            >(response@),
            Err(e) => response_read(json_members(line@)) == Err::<DaemonResponseView, Seq<char>>(
                e@,
            ),
        },
{
    response_from_members(read_members(line))
}

/// Appends a string that may be there, as JSON.
fn append_optional(out: &mut String, text: &Option<String>)
    ensures
        final(out)@ == old(out)@ + optional_json(text_view(*text)),
{
    match text {
        Some(t) => {
            let quoted = quote(t.as_str());
            out.append(quoted.as_str());
        },
        None => {
            out.append("null");
        },
    }
}

/// Appends a truth value, as JSON.
fn append_bool(out: &mut String, b: bool)
    ensures
        final(out)@ == old(out)@ + bool_json(b),
{
    if b {
        out.append("true");
    } else {
        out.append("false");
    }
}

/// A response as a JSON object, to be sent as one line.
pub fn encode_response(response: &DaemonResponse) -> (r: String)
    ensures
        r@ == response_json(response@),
{
    let mut out = String::new();
    out.append("{\"success\":");
    append_bool(&mut out, response.success);
    out.append(",\"output\":");
    let quoted = quote(response.output.as_str());
    out.append(quoted.as_str());
    out.append(",\"error\":");
    append_optional(&mut out, &response.error);
    out.append("}");
    assert(out@ =~= response_json(response@));
    out
}

/// A request as a JSON object, to be sent as one line.
pub fn encode_request(request: &DaemonRequest) -> (r: String)
    ensures
        r@ == request_json(request@),
{
    let mut out = String::new();
    out.append("{\"command\":");
    let command = quote(request.command.as_str());
    out.append(command.as_str());
    out.append(",\"shell\":");
    let shell = quote(request.shell.as_str());
    out.append(shell.as_str());
    out.append(",\"error\":");
    append_optional(&mut out, &request.error);
    out.append(",\"verbose\":");
    append_bool(&mut out, request.verbose);
    out.append("}");
    assert(out@ =~= request_json(request@));
    out
}

/// The request to stop, as a JSON object.
pub fn stop_request() -> (r: &'static str)
    ensures
        r@ == "{\"stop\":true}"@,
{
    "{\"stop\":true}"
}

} // verus!
