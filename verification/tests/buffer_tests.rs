use std::cell::RefCell;
use std::rc::Rc;

use rgb_log::Log;
use rgb_log::buffer::InMemory;
use rgb_log::buffer::LoaderAction;
use rgb_log::buffer::LoaderEvent;
use rgb_log::buffer::LogBuffer;
use rgb_log::buffer::Msg;
use rgb_log::buffer::State;
use rgb_log::buffer::Status;
use rgb_log::buffer::join_lines_exec;
use rgb_log::buffer::loader_step;
use rgb_log::buffer::parse_lines;

#[test]
fn in_memory_buffer_appends_in_order() {
    let mut buf = InMemory::new();
    assert!(buf.lines.is_empty());
    buf.push("one".to_string());
    buf.push("two".to_string());
    assert_eq!(buf.lines, vec!["one".to_string(), "two".to_string()]);
}

#[test]
fn noop_buffer_accepts_lines() {
    let sink: Option<()> = None;
    sink.push_line("dropped".to_string());
}

#[test]
fn offload_serializes_and_empties_memory() {
    let mut state = State::new();
    assert!(matches!(state.status, Status::InMemory));
    assert!(state.apply_push("one".to_string()));
    assert!(state.apply_push("two".to_string()));
    assert!(state.apply_push("three".to_string()));

    let payload = state.offload_payload();
    assert_eq!(payload, "one\ntwo\nthree\n");

    state.commit_offload();
    assert!(state.inner.is_empty());
    assert!(matches!(state.status, Status::OnDisk));
}

#[test]
fn push_after_offload_reloads_then_appends() {
    let mut state = State::new();
    assert!(state.apply_push("one".to_string()));
    assert!(state.apply_push("two".to_string()));
    let payload = state.offload_payload();
    state.commit_offload();

    assert!(!state.apply_push("late".to_string()));
    assert!(state.inner.is_empty());

    state.reload_and_push(&payload, "three".to_string());
    assert!(matches!(state.status, Status::InMemory));
    assert_eq!(
        state.inner,
        vec!["one".to_string(), "two".to_string(), "three".to_string()]
    );
}

#[test]
fn offload_then_reload_round_trips_exactly() {
    let lines = vec![
        "alpha".to_string(),
        "".to_string(),
        "gamma delta".to_string(),
    ];
    let serialized = join_lines_exec(&lines);
    let parsed = parse_lines(&serialized);
    assert_eq!(parsed, lines);
}

#[test]
fn no_line_is_lost_across_a_cycle() {
    let lines: Vec<String> = (0..50).map(|i| format!("line {i}")).collect();
    let serialized = join_lines_exec(&lines);
    let parsed = parse_lines(&serialized);
    assert_eq!(parsed.len(), 50);
    assert_eq!(parsed, lines);
}

#[test]
fn parse_lines_edge_cases() {
    assert_eq!(parse_lines(""), Vec::<String>::new());
    assert_eq!(parse_lines("a"), vec!["a".to_string()]);
    assert_eq!(parse_lines("a\n"), vec!["a".to_string()]);
    assert_eq!(parse_lines("\n"), vec!["".to_string()]);
    assert_eq!(
        parse_lines("a\n\nb"),
        vec!["a".to_string(), "".to_string(), "b".to_string()]
    );
}

#[test]
fn reload_never_overwrites_live_lines() {
    let mut state = State::new();
    assert!(state.apply_push("live".to_string()));
    let refused = state.apply_reload(vec!["stale".to_string()]);
    assert!(!refused);
    assert_eq!(state.inner, vec!["live".to_string()]);
    assert!(matches!(state.status, Status::InMemory));

    state.commit_offload();
    let accepted = state.apply_reload(vec!["back".to_string()]);
    assert!(accepted);
    assert_eq!(state.inner, vec!["back".to_string()]);
    assert!(matches!(state.status, Status::InMemory));
}

#[test]
fn loader_steps_map_events_to_actions() {
    assert!(matches!(
        loader_step(&LoaderEvent::TimerExpired),
        LoaderAction::Offload
    ));
    assert!(matches!(
        loader_step(&LoaderEvent::Received(Msg::Load)),
        LoaderAction::Reload
    ));
    assert!(matches!(
        loader_step(&LoaderEvent::Received(Msg::ExtendTimeout)),
        LoaderAction::AwaitNext
    ));
    assert!(matches!(
        loader_step(&LoaderEvent::Received(Msg::Stop)),
        LoaderAction::Shutdown
    ));
}

struct Recorder {
    lines: Rc<RefCell<Vec<String>>>,
}

impl LogBuffer for Recorder {
    fn push_line(&self, line: String) {
        self.lines.borrow_mut().push(line);
    }
}

#[test]
fn emitted_lines_reach_the_buffer_in_order() {
    let lines = Rc::new(RefCell::new(Vec::new()));
    let log = Log::new(
        Recorder { lines: lines.clone() },
        Some("app".to_string()),
        Vec::new(),
        Vec::new(),
    );
    log.info("first");
    log.error("second");
    let held = lines.borrow();
    assert_eq!(held.len(), 2);
    assert_eq!(held[0], "[app]  INFO: first\r\n");
    assert_eq!(held[1], "[app]  ERROR: second\r\n");
}

struct SyncRecorder {
    lines: std::sync::Arc<std::sync::Mutex<Vec<String>>>,
}

impl LogBuffer for SyncRecorder {
    fn push_line(&self, line: String) {
        self.lines.lock().unwrap().push(line);
    }
}

#[test]
fn concurrent_pushes_lose_no_line() {
    let rt = tokio::runtime::Builder::new_multi_thread()
        .worker_threads(4)
        .enable_all()
        .build()
        .unwrap();
    let lines = std::sync::Arc::new(std::sync::Mutex::new(Vec::new()));
    let log = Log::new(
        SyncRecorder { lines: lines.clone() },
        None,
        Vec::new(),
        Vec::new(),
    );
    rt.block_on(async {
        let mut handles = Vec::new();
        for i in 0..50 {
            let l = log.clone();
            handles.push(tokio::spawn(async move {
                l.info(format!("message {i}"));
            }));
        }
        for h in handles {
            h.await.unwrap();
        }
    });
    let held = lines.lock().unwrap();
    assert_eq!(held.len(), 50);
    for i in 0..50 {
        let expected = format!(" INFO: message {i}\r\n");
        assert!(held.iter().any(|l| l == &expected));
    }
}
