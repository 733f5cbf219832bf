use fix_lib::daemon::{
    accept_pause, endpoint_name, marker_name, marker_pid, probe, respond, verdict, waiting,
    Artifact, Daemon, Liveness, Phase, Reaction, StartStep, Tick, Waiting, IDLE_TIMEOUT_MS,
    STARTUP_POLLS,
};
use fix_lib::json::{JsonKind, JsonMember};
use fix_lib::number::{decimal, parse_i32, parse_u64};
use fix_lib::wire::{
    classify, encode_request, encode_response, read_request, read_response, stop_request,
    DaemonRequest, DaemonResponse, Incoming,
};

#[test]
fn requests_are_read() {
    assert_eq!(
        read_request("{\"command\":\"gti status\",\"shell\":\"bash\",\"error\":null,\"verbose\":false}\n"),
        Incoming::Correct(DaemonRequest {
            command: "gti status".to_string(),
            shell: "bash".to_string(),
            error: None,
            verbose: false,
        })
    );
    assert_eq!(
        read_request("{\"verbose\": true, \"shell\": \"zsh\", \"command\": \"a \\\"b\\\"\", \"error\": \"boom\"}"),
        Incoming::Correct(DaemonRequest {
            command: "a \"b\"".to_string(),
            shell: "zsh".to_string(),
            error: Some("boom".to_string()),
            verbose: true,
        })
    );
    // The error may be left out.
    assert_eq!(
        read_request("{\"command\":\"x\",\"shell\":\"bash\",\"verbose\":true}"),
        Incoming::Correct(DaemonRequest {
            command: "x".to_string(),
            shell: "bash".to_string(),
            error: None,
            verbose: true,
        })
    );
}

#[test]
fn stop_is_read() {
    assert_eq!(read_request(stop_request()), Incoming::Stop);
    assert_eq!(read_request("{\"stop\": true}\n"), Incoming::Stop);
    assert_eq!(
        read_request("{\"stop\": false}"),
        Incoming::Malformed("missing field `command`".to_string())
    );
    assert_eq!(
        read_request("{\"stop\": \"true\"}"),
        Incoming::Malformed("missing field `command`".to_string())
    );
}

#[test]
fn malformed_requests_say_what_is_wrong() {
    assert_eq!(read_request("gti status"), Incoming::Malformed("expected a JSON object".to_string()));
    assert_eq!(read_request("[1]"), Incoming::Malformed("expected a JSON object".to_string()));
    assert_eq!(read_request(""), Incoming::Malformed("expected a JSON object".to_string()));
    assert_eq!(
        read_request("{\"command\":1,\"shell\":\"bash\",\"verbose\":true}"),
        Incoming::Malformed("invalid type for field `command`: expected a string".to_string())
    );
    assert_eq!(
        read_request("{\"command\":\"x\",\"verbose\":true}"),
        Incoming::Malformed("missing field `shell`".to_string())
    );
    assert_eq!(
        read_request("{\"command\":\"x\",\"shell\":\"bash\",\"error\":3,\"verbose\":true}"),
        Incoming::Malformed("invalid type for field `error`: expected a string or null".to_string())
    );
    assert_eq!(
        read_request("{\"command\":\"x\",\"shell\":\"bash\",\"verbose\":\"yes\"}"),
        Incoming::Malformed("invalid type for field `verbose`: expected a boolean".to_string())
    );
    assert_eq!(
        read_request("{\"command\":\"x\",\"shell\":\"bash\"}"),
        Incoming::Malformed("missing field `verbose`".to_string())
    );
}

#[test]
fn classification_by_members() {
    assert_eq!(classify(None), Incoming::Malformed("expected a JSON object".to_string()));
    let stop = vec![JsonMember { key: "stop".to_string(), kind: JsonKind::Other, body: "true".to_string() }];
    assert_eq!(classify(Some(stop)), Incoming::Stop);
    let text = vec![JsonMember { key: "stop".to_string(), kind: JsonKind::Text, body: "true".to_string() }];
    assert_eq!(classify(Some(text)), Incoming::Malformed("missing field `command`".to_string()));
}

#[test]
fn responses_are_written_and_read_back() {
    let ok = DaemonResponse { success: true, output: "git \"status\"\n\\".to_string(), error: None };
    let line = encode_response(&ok);
    assert_eq!(line, "{\"success\":true,\"output\":\"git \\\"status\\\"\\n\\\\\",\"error\":null}");
    assert_eq!(read_response(&line), Ok(ok));
    let failed = DaemonResponse { success: false, output: String::new(), error: Some("né".to_string()) };
    let line = encode_response(&failed);
    assert_eq!(line, "{\"success\":false,\"output\":\"\",\"error\":\"né\"}");
    assert_eq!(read_response(&format!("{}\n", line)), Ok(failed));
    assert_eq!(
        read_response("garbage"),
        Err("Failed to parse response: expected a JSON object".to_string())
    );
    assert_eq!(
        read_response("{\"success\":true}"),
        Err("Failed to parse response: missing field `output`".to_string())
    );
}

#[test]
fn requests_are_written_and_read_back() {
    let request = DaemonRequest {
        command: "echo \"hi\" | grep 'h'".to_string(),
        shell: "bash".to_string(),
        error: Some("tab\there".to_string()),
        verbose: true,
    };
    let line = encode_request(&request);
    assert_eq!(
        line,
        "{\"command\":\"echo \\\"hi\\\" | grep 'h'\",\"shell\":\"bash\",\"error\":\"tab\\there\",\"verbose\":true}"
    );
    assert_eq!(read_request(&line), Incoming::Correct(request));
}

#[test]
fn daemon_serves_until_it_is_told_to_stop() {
    let daemon = Daemon::new(1_000);
    assert_eq!(daemon.phase, Phase::Starting);
    assert_eq!(daemon.idle_timeout_ms, 3_600_000);
    assert_eq!(daemon.on_tick(1_000), (daemon, Tick::Start));
    assert_eq!(
        Daemon::startup(),
        vec![StartStep::RemoveStaleEndpoint, StartStep::LoadBackend, StartStep::BindEndpoint]
    );
    let daemon = daemon.on_started(2_000);
    assert_eq!(daemon.phase, Phase::Serving);
    assert_eq!(daemon.on_tick(2_000 + IDLE_TIMEOUT_MS), (daemon, Tick::Accept));
    let daemon = daemon.on_connection(5_000);
    assert_eq!(daemon.last_activity_ms, 5_000);

    let request = DaemonRequest {
        command: "gti".to_string(),
        shell: "bash".to_string(),
        error: None,
        verbose: false,
    };
    let (daemon, reaction) = daemon.on_request(Incoming::Correct(request.clone()));
    assert_eq!(daemon.phase, Phase::Serving);
    assert_eq!(reaction, Reaction::Correct(request));

    let (daemon, reaction) = daemon.on_request(Incoming::Malformed("missing field `shell`".to_string()));
    assert_eq!(daemon.phase, Phase::Serving);
    assert_eq!(
        reaction,
        Reaction::Reply(DaemonResponse {
            success: false,
            output: String::new(),
            error: Some("Invalid request: missing field `shell`".to_string()),
        })
    );

    let (daemon, reaction) = daemon.on_request(Incoming::Stop);
    assert_eq!(daemon.phase, Phase::Stopping);
    assert_eq!(
        reaction,
        Reaction::Reply(DaemonResponse {
            success: true,
            output: "Daemon stopping".to_string(),
            error: None,
        })
    );
    assert_eq!(daemon.on_tick(5_000), (daemon, Tick::CleanUp));
    assert_eq!(Daemon::cleanup(), vec![Artifact::Endpoint, Artifact::Marker]);
    let daemon = daemon.on_cleaned();
    assert_eq!(daemon.phase, Phase::Terminated);
    assert_eq!(daemon.on_tick(5_000), (daemon, Tick::Exit));
    // Both files are gone: a client finds no daemon.
    assert_eq!(probe(None, true, false), Liveness::NotRunning);
    // A daemon that is over takes no requests and does not come back.
    let (daemon, reaction) = daemon.on_request(Incoming::Stop);
    assert_eq!(daemon.phase, Phase::Terminated);
    assert_eq!(
        reaction,
        Reaction::Reply(DaemonResponse {
            success: false,
            output: String::new(),
            error: Some("Daemon is not serving".to_string()),
        })
    );
    assert_eq!(daemon.on_started(9_000).phase, Phase::Terminated);
}

#[test]
fn idle_daemon_stops_by_itself() {
    let daemon = Daemon::new(0).with_idle_timeout(1_000).on_started(100);
    assert_eq!(daemon.on_tick(1_100).1, Tick::Accept);
    assert_eq!(daemon.on_tick(50).1, Tick::Accept);
    let (stopping, tick) = daemon.on_tick(1_101);
    assert_eq!(tick, Tick::CleanUp);
    assert_eq!(stopping.phase, Phase::Stopping);
    let kept = daemon.on_connection(1_101);
    assert_eq!(kept.on_tick(2_101).1, Tick::Accept);
    assert_eq!(Daemon::new(0).on_start_failed().phase, Phase::Stopping);
    assert_eq!(accept_pause(true), 50);
    assert_eq!(accept_pause(false), 100);
}

#[test]
fn liveness_is_probed() {
    assert_eq!(probe(None, false, false), Liveness::NotRunning);
    assert_eq!(probe(None, true, true), Liveness::NotRunning);
    assert_eq!(probe(Some("1234\n"), true, true), Liveness::Running);
    assert_eq!(probe(Some("1234"), false, true), Liveness::Stale);
    assert_eq!(probe(Some("1234"), true, false), Liveness::Stale);
    assert_eq!(probe(Some("not a pid"), true, true), Liveness::Stale);
    assert_eq!(probe(Some(""), true, true), Liveness::Stale);
    assert_eq!(marker_pid(" 4321 \n"), Some(4321));
    assert_eq!(marker_pid("12 34"), None);
}

#[test]
fn names_follow_the_user() {
    assert_eq!(endpoint_name("fix", 1000), "fix-daemon-1000.sock");
    assert_eq!(marker_name("fix", 1000), "fix-daemon-1000.pid");
    assert_eq!(endpoint_name("wit", 0), "wit-daemon-0.sock");
    assert_eq!(marker_name("wit", u32::MAX), "wit-daemon-4294967295.pid");
    assert_ne!(endpoint_name("fix", 10), endpoint_name("fix", 100));
}

#[test]
fn numbers_are_written_and_read() {
    assert_eq!(decimal(0), "0");
    assert_eq!(decimal(7), "7");
    assert_eq!(decimal(1090), "1090");
    assert_eq!(decimal(u64::MAX), "18446744073709551615");
    assert_eq!(parse_i32("0"), Some(0));
    assert_eq!(parse_i32("-0"), Some(0));
    assert_eq!(parse_i32("+17"), Some(17));
    assert_eq!(parse_i32("007"), Some(7));
    assert_eq!(parse_i32("2147483647"), Some(i32::MAX));
    assert_eq!(parse_i32("2147483648"), None);
    assert_eq!(parse_i32("-2147483648"), Some(i32::MIN));
    assert_eq!(parse_i32("-2147483649"), None);
    assert_eq!(parse_i32("99999999999999999999999"), None);
    assert_eq!(parse_i32(""), None);
    assert_eq!(parse_i32("-"), None);
    assert_eq!(parse_i32("+"), None);
    assert_eq!(parse_i32("1a"), None);
    assert_eq!(parse_i32(" 1"), None);
    assert_eq!(parse_i32("١"), None);
    assert_eq!(parse_u64("18446744073709551615"), Some(u64::MAX));
    assert_eq!(parse_u64("18446744073709551616"), None);
    assert_eq!(parse_u64("-1"), None);
    assert_eq!(parse_u64(""), None);
    for n in [0u64, 9, 10, 99, 100, 12345, 4294967295] {
        assert_eq!(parse_u64(&decimal(n)), Some(n));
    }
}

#[test]
fn clients_wait_and_judge() {
    assert_eq!(waiting(true, 0, STARTUP_POLLS), Waiting::Ready);
    assert_eq!(waiting(false, 49, STARTUP_POLLS), Waiting::Again);
    assert_eq!(waiting(false, 50, STARTUP_POLLS), Waiting::GaveUp);
    assert_eq!(
        verdict(&respond(Ok("git status".to_string()))),
        Ok("git status".to_string())
    );
    assert_eq!(
        verdict(&respond(Ok(String::new()))),
        Err("Could not correct command".to_string())
    );
    assert_eq!(
        verdict(&respond(Err("Decode failed".to_string()))),
        Err("Error: Decode failed".to_string())
    );
    assert_eq!(
        verdict(&DaemonResponse { success: false, output: String::new(), error: None }),
        Err("Error: Unknown error".to_string())
    );
}
