use kanade::agent::{
    replace_first, AgentLogKind, AgentLogMessage, Args, HttpReporter, KanadeAgent, LogLine,
    LogSender, PollAction, ReporterError,
};
use kanade::realtime::{JobsApi, LogMessage, Realtime};

#[test]
fn the_agent_reads_its_default_config_file() {
    assert_eq!(Args::with_config(None).config, "kanade-agent.toml");
    assert_eq!(Args::with_config(Some("a.toml".to_string())).config, "a.toml");
}

#[test]
fn the_agent_polls_and_backs_off() {
    assert_eq!(KanadeAgent::acquire_url("http://ci:4000"), "http://ci:4000/api/v1/agent/jobs/acquire");
    assert_eq!(KanadeAgent::after_poll(Some(200)), PollAction::RunJob);
    assert_eq!(KanadeAgent::after_poll(Some(204)), PollAction::WaitSeconds(5));
    assert_eq!(KanadeAgent::after_poll(Some(500)), PollAction::WaitSeconds(5));
    assert_eq!(KanadeAgent::after_poll(None), PollAction::RetryNow);
    assert_eq!(KanadeAgent::after_unreadable_job(), PollAction::WaitSeconds(5));
}

#[test]
fn jobs_run_in_their_image_for_their_timeout() {
    assert_eq!(KanadeAgent::job_image(Some("alpine".to_string())), "alpine");
    assert_eq!(KanadeAgent::job_image(None), "");
    assert_eq!(KanadeAgent::job_timeout_seconds(30), 1800);
    assert_eq!(KanadeAgent::job_timeout_seconds(i32::MAX), i32::MAX as i64 * 60);
}

#[test]
fn progress_is_reported_to_step_and_job_addresses() {
    let id = 0x00112233_4455_6677_8899_aabbccddeeffu128;
    assert_eq!(
        HttpReporter::step_started_url("http://ci", id),
        "http://ci/api/v1/agent/steps/00112233-4455-6677-8899-aabbccddeeff/started"
    );
    assert_eq!(
        HttpReporter::step_finished_url("http://ci", id),
        "http://ci/api/v1/agent/steps/00112233-4455-6677-8899-aabbccddeeff/finish"
    );
    assert_eq!(
        HttpReporter::job_finished_url("http://ci", id),
        "http://ci/api/v1/agent/jobs/00112233-4455-6677-8899-aabbccddeeff/finish"
    );
    let s = HttpReporter::step_finished(0);
    assert!(s.success);
    assert_eq!(s.exit_code, 0);
    let s = HttpReporter::step_finished(137);
    assert!(!s.success);
    assert_eq!(s.exit_code, 137);
    assert!(!HttpReporter::job_finished(false).success);
    assert_eq!(ReporterError("down".to_string()).message(), "down");
}

#[test]
fn only_output_lines_are_streamed() {
    assert!(HttpReporter::step_log(1, 2, LogLine::StdIn("x".to_string())).is_none());
    match HttpReporter::step_log(1, 2, LogLine::StdErr("oops".to_string())) {
        Some(AgentLogMessage::Log { job_id, step_id, kind, content }) => {
            assert_eq!((job_id, step_id, kind, content.as_str()), (1, 2, AgentLogKind::Stderr, "oops"));
        },
        None => panic!("stderr must be streamed"),
    }
    match HttpReporter::step_log(3, 4, LogLine::StdOut("ok".to_string())) {
        Some(AgentLogMessage::Log { kind, .. }) => assert_eq!(kind, AgentLogKind::Stdout),
        None => panic!("stdout must be streamed"),
    }
}

#[test]
fn replace_first_changes_one_occurrence() {
    assert_eq!(replace_first("a-b-c", "-", "+"), "a+b-c");
    assert_eq!(replace_first("abc", "x", "y"), "abc");
    assert_eq!(replace_first("aaa", "aa", "b"), "ba");
    assert_eq!(replace_first("ab", "", "x"), "xab");
    assert_eq!(replace_first("", "a", "b"), "");
}

#[test]
fn logs_stream_to_the_websocket_of_the_api() {
    assert_eq!(LogSender::<u8>::socket_url("https://ci.example"), "wss://ci.example/_/ws/agent");
    assert_eq!(LogSender::<u8>::socket_url("http://localhost:4000"), "ws://localhost:4000/_/ws/agent");
    assert_eq!(LogSender::<u8>::socket_url("https://http://x"), "wss://ws://x/_/ws/agent");
    assert_eq!(LogSender::<u8>::new("http://localhost:4000").url, "ws://localhost:4000/_/ws/agent");
}

#[test]
fn the_log_buffer_flushes_at_fifty_and_keeps_300_after_a_failure() {
    let mut s = LogSender::new("https://ci.example");
    assert_eq!(s.url, "wss://ci.example/_/ws/agent");
    assert!(!s.tick_due());
    for i in 0..49u32 {
        assert!(!s.push(i));
    }
    assert!(s.tick_due());
    assert!(s.push(49));
    s.on_sent();
    assert!(s.buffer.is_empty());
    for i in 0..400u32 {
        s.push(i);
    }
    s.on_send_failed();
    assert_eq!(s.buffer.len(), 300);
    assert_eq!(s.buffer[0], 0);
    assert_eq!(s.buffer[299], 299);
    s.on_send_failed();
    assert_eq!(s.buffer.len(), 300);
}

#[test]
fn realtime_channels_and_log_streams() {
    assert_eq!(Realtime::events_channel(), "kanade:events");
    assert_eq!(Realtime::logs_channel(), "kanade:logs");
    assert_eq!(Realtime::log_stream_key(1), "kanade:logs:00000000-0000-0000-0000-000000000001");
}

#[test]
fn agent_log_lines_are_published_for_their_job() {
    let m = LogMessage::from_agent(AgentLogMessage::Log {
        job_id: 8,
        step_id: 9,
        kind: AgentLogKind::Stdout,
        content: "hi".to_string(),
    });
    assert_eq!(m.job_id, 8);
    assert_eq!(m.entry.step_id, 9);
    assert_eq!(m.entry.content, "hi");
    assert!(m.is_for(8));
    assert!(!m.is_for(9));
}

#[test]
fn stored_log_payloads_are_the_first_field_of_each_entry() {
    let entries = vec![
        ("1-0".to_string(), vec![("data".to_string(), "{\"a\":1}".to_string())]),
        ("2-0".to_string(), vec![]),
        (
            "3-0".to_string(),
            vec![("data".to_string(), "{\"b\":2}".to_string()), ("x".to_string(), "y".to_string())],
        ),
    ];
    assert_eq!(JobsApi::log_payloads(&entries), vec!["{\"a\":1}".to_string(), "{\"b\":2}".to_string()]);
}
