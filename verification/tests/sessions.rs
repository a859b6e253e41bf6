use codex_halo::activity::{CodexActivity, CodexActivityRecord};
use codex_halo::platform::{codex_sessions_dir, locate, log_dir, needs_log_rotation, state_file_path, MAX_LOG_BYTES};
use codex_halo::sessions::{
    is_session_file, is_state_file_name, read_start, recent_session_order, remember_recent_file,
    scan_appended, SessionTracker, StateWatch,
};

fn started(turn: &str) -> CodexActivityRecord {
    CodexActivityRecord { activity: CodexActivity::Started, turn_id: turn.to_owned() }
}

#[test]
fn appended_lifecycle_record_is_found() {
    let existing = "{\"type\":\"session_meta\"}\n";
    let appended = "{\"type\":\"event_msg\",\"payload\":{\"type\":\"task_started\",\"turn_id\":\"turn-1\"}}\n";
    let start = read_start((existing.len() + appended.len()) as u64, Some(existing.len() as u64));
    assert_eq!(start, Some(existing.len() as u64));
    let chunk = scan_appended(appended.as_bytes());
    assert_eq!(chunk.records, vec![started("turn-1")]);
    assert_eq!(chunk.consumed, appended.len());
}

#[test]
fn partial_lines_wait_for_their_newline() {
    let complete = "{\"type\":\"event_msg\",\"payload\":{\"type\":\"task_started\",\"turn_id\":\"a\"}}\n";
    let partial = "{\"type\":\"event_msg\",\"payload\":{\"type\":\"task_complete\",\"turn_id\":\"a\"}}";
    let bytes = format!("{complete}{partial}");
    let chunk = scan_appended(bytes.as_bytes());
    assert_eq!(chunk.records, vec![started("a")]);
    assert_eq!(chunk.consumed, complete.len());
    let empty = scan_appended(b"");
    assert!(empty.records.is_empty());
    assert_eq!(empty.consumed, 0);
}

#[test]
fn invalid_utf8_lines_are_skipped_but_consumed() {
    let mut bytes = vec![0xff, 0xfe, b'\n'];
    bytes.extend_from_slice(
        b"{\"type\":\"event_msg\",\"payload\":{\"type\":\"task_complete\",\"turn_id\":\"b\"}}\n",
    );
    let chunk = scan_appended(&bytes);
    assert_eq!(
        chunk.records,
        vec![CodexActivityRecord { activity: CodexActivity::Completed, turn_id: "b".to_owned() }]
    );
    assert_eq!(chunk.consumed, bytes.len());
}

#[test]
fn replaced_files_are_read_from_the_start() {
    assert_eq!(read_start(10, Some(40)), Some(0));
    assert_eq!(read_start(40, Some(40)), None);
    assert_eq!(read_start(0, None), None);
    assert_eq!(read_start(7, None), Some(0));
}

#[test]
fn recent_files_move_to_the_front_and_stay_bounded() {
    let mut files: Vec<String> = (0..8).map(|i| format!("f{i}")).collect();
    remember_recent_file(&mut files, "f3".to_owned());
    assert_eq!(files, vec!["f3", "f0", "f1", "f2", "f4", "f5", "f6", "f7"]);
    remember_recent_file(&mut files, "new".to_owned());
    assert_eq!(files.len(), 8);
    assert_eq!(files[0], "new");
    assert_eq!(files[7], "f6");
}

#[test]
fn recent_order_is_newest_first() {
    assert_eq!(recent_session_order(&vec![5, 9, 1]), vec![1, 0, 2]);
    let modified: Vec<u128> = (0..12).collect();
    assert_eq!(recent_session_order(&modified), vec![11, 10, 9, 8, 7, 6, 5, 4]);
    assert!(recent_session_order(&Vec::new()).is_empty());
}

#[test]
fn state_watch_ignores_duplicate_or_older_records() {
    let mut watch = StateWatch::new();
    watch.begin(100);
    assert!(!watch.offer(100));
    assert!(!watch.offer(50));
    assert!(watch.offer(101));
    assert_eq!(watch.last_timestamp, 101);
}

#[test]
fn file_name_filters() {
    assert!(is_state_file_name("state.json"));
    assert!(is_state_file_name("state.json.tmp"));
    assert!(!is_state_file_name("state.jsonx"));
    assert!(!is_state_file_name("other.json"));
    assert!(is_session_file(Some("jsonl")));
    assert!(!is_session_file(Some("json")));
    assert!(!is_session_file(None));
}

#[test]
fn tracker_polls_active_files_while_working() {
    let mut tracker = SessionTracker::new(vec!["recent".to_owned()]);
    assert_eq!(tracker.poll_targets(), vec!["recent".to_owned()]);
    tracker.note_scanned("a".to_owned(), false, true);
    assert_eq!(tracker.finish_round(vec![started("t")]), Some(CodexActivity::Started));
    assert!(tracker.is_working());
    assert_eq!(tracker.poll_targets(), vec!["a".to_owned()]);
    let done = CodexActivityRecord { activity: CodexActivity::Completed, turn_id: "t".to_owned() };
    assert_eq!(tracker.finish_round(vec![done]), Some(CodexActivity::Completed));
    assert_eq!(tracker.poll_targets(), vec!["a".to_owned(), "recent".to_owned()]);
}

#[test]
fn tracker_remembers_new_files_without_records() {
    let mut tracker = SessionTracker::new(Vec::new());
    tracker.note_scanned("fresh".to_owned(), true, false);
    tracker.note_polled("quiet".to_owned(), false);
    assert_eq!(tracker.poll_targets(), vec!["fresh".to_owned()]);
}

#[test]
fn locations_are_built_from_fixed_components() {
    if let Some(path) = state_file_path() {
        assert_eq!(path.components, vec![".codex-halo", "state.json"]);
        assert!(!path.root.as_os_str().is_empty());
    }
    if let Some(path) = codex_sessions_dir() {
        assert_eq!(path.components, vec![".codex", "sessions"]);
    }
    if let Some(path) = log_dir() {
        assert_eq!(path.components, vec!["Codex Halo", "logs"]);
    }
}

#[test]
fn log_rotates_at_one_mebibyte() {
    assert_eq!(MAX_LOG_BYTES, 1_048_576);
    assert!(needs_log_rotation(Some(MAX_LOG_BYTES)));
    assert!(!needs_log_rotation(Some(MAX_LOG_BYTES - 1)));
    assert!(!needs_log_rotation(None));
}

#[test]
fn locations_exist_exactly_when_their_base_does() {
    assert!(locate(None, "x").is_none());
    let path = locate(Some(std::path::PathBuf::from("/base")), "x").unwrap();
    assert_eq!(path.root, std::path::PathBuf::from("/base"));
    assert_eq!(path.components, vec!["x"]);
}

#[test]
fn location_builders_follow_their_base_directory() {
    assert!(codex_halo::platform::state_file_in(None).is_none());
    let file = codex_halo::platform::state_file_in(Some(std::path::PathBuf::from("/home/a"))).unwrap();
    assert_eq!(file.root, std::path::PathBuf::from("/home/a"));
    assert_eq!(file.components, vec![".codex-halo", "state.json"]);
    let sessions = codex_halo::platform::sessions_dir_in(Some(std::path::PathBuf::from("/home/a"))).unwrap();
    assert_eq!(sessions.components, vec![".codex", "sessions"]);
    assert!(codex_halo::platform::log_dir_in(None).is_none());
    let logs = codex_halo::platform::log_dir_in(Some(std::path::PathBuf::from("/data"))).unwrap();
    assert_eq!(logs.root, std::path::PathBuf::from("/data"));
    assert_eq!(logs.components, vec!["Codex Halo", "logs"]);
    let settings = codex_halo::settings::AppSettings::config_path_in(Some(std::path::PathBuf::from("/data"))).unwrap();
    assert_eq!(settings.components, vec!["Codex Halo", "settings.json"]);
    assert!(codex_halo::settings::AppSettings::config_path_in(None).is_none());
}

#[test]
fn a_record_split_across_two_reads_is_reported_once() {
    let record = "{\"type\":\"event_msg\",\"payload\":{\"type\":\"task_started\",\"turn_id\":\"split\"}}\n";
    let (head, tail) = record.split_at(20);
    let first = scan_appended(head.as_bytes());
    assert!(first.records.is_empty());
    assert_eq!(first.consumed, 0);
    let grown = format!("{head}{tail}");
    let second = scan_appended(&grown.as_bytes()[first.consumed..]);
    assert_eq!(second.records, vec![started("split")]);
    assert_eq!(first.consumed + second.consumed, grown.len());
}
