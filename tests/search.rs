use rgui_search::engine::{Checkpoint, EngineRun, RunState};
use rgui_search::matcher::PatternMatcher;
use rgui_search::request::{ConfigError, MatchResult, SearchRequest};
use rgui_search::scanner::{event_for_line, events_from_lines, strip_line_terminator};

fn request(pattern: &str, encoding: &str, skip_bin: bool, case_ins: bool, multi_l: bool) -> SearchRequest {
    SearchRequest {
        root_path: "root".to_string(),
        pattern: pattern.to_string(),
        encoding_name: encoding.to_string(),
        skip_binary_detection: skip_bin,
        case_insensitive: case_ins,
        multi_line: multi_l,
    }
}

fn started(pattern: &str) -> EngineRun {
    match EngineRun::start(&request(pattern, "UTF-8", false, false, false)) {
        Ok(run) => run,
        Err(e) => panic!("start failed: {:?}", e),
    }
}

fn scan(run: &mut EngineRun, path: &str, bytes: &[u8]) -> Vec<MatchResult> {
    run.scan_file(&path.to_string(), bytes).expect("scan failed")
}

#[test]
fn scenario_a_one_match_then_finish() {
    let mut run = started("match");
    let events = scan(&mut run, "root/a.txt", b"hello\nworld match here\ndone\n");
    assert_eq!(events.len(), 1);
    assert_eq!(events[0].path, "root/a.txt");
    assert_eq!(events[0].lnum, 2);
    assert_eq!(events[0].line, "world match here");
    assert_eq!(events[0].start, 6);
    assert_eq!(events[0].end, 11);
    assert!(run.finish());
    assert_eq!(run.state_now(), RunState::Completed);
}

#[test]
fn scenario_b_binary_file_yields_nothing() {
    let mut run = started("match");
    let events = scan(&mut run, "bin", b"a match\0here\nmatch again\n");
    assert!(events.is_empty());
    assert!(run.finish());
}

#[test]
fn binary_file_is_scanned_when_detection_is_skipped() {
    let mut run = EngineRun::start(&request("match", "UTF-8", true, false, false)).unwrap();
    let events = scan(&mut run, "bin", b"a match\0here\nmatch again\n");
    assert_eq!(events.len(), 2);
    assert_eq!(events[0].lnum, 1);
    assert_eq!(events[0].start, 2);
    assert_eq!(events[1].lnum, 2);
    assert_eq!(events[1].line, "match again");
}

#[test]
fn scenario_c_unknown_encoding_is_config_error() {
    match EngineRun::start(&request("match", "BOGUS-ENCODING", false, false, false)) {
        Err(ConfigError::UnknownEncoding(label)) => assert_eq!(label, "BOGUS-ENCODING"),
        Err(e) => panic!("wrong error: {:?}", e),
        Ok(_) => panic!("expected an error"),
    }
}

#[test]
fn invalid_pattern_is_config_error() {
    match EngineRun::start(&request("(unclosed", "UTF-8", false, false, false)) {
        Err(ConfigError::InvalidPattern(msg)) => assert!(!msg.is_empty()),
        Err(e) => panic!("wrong error: {:?}", e),
        Ok(_) => panic!("expected an error"),
    }
}

#[test]
fn invalid_pattern_wins_over_unknown_encoding() {
    assert!(matches!(
        EngineRun::start(&request("[", "BOGUS-ENCODING", false, false, false)),
        Err(ConfigError::InvalidPattern(_))
    ));
}

#[test]
fn valid_request_starts_running() {
    let run = EngineRun::start(&request("a+b", "latin1", false, true, true)).unwrap();
    assert_eq!(run.state_now(), RunState::Running);
    assert_eq!(run.checkpoint(), Checkpoint::Continue);
}

#[test]
fn scenario_d_no_files_finishes_once() {
    let mut run = started("anything");
    assert!(run.finish());
    assert!(!run.finish());
    assert_eq!(run.state_now(), RunState::Completed);
}

#[test]
fn scenario_e_case_insensitive_match() {
    let mut run = EngineRun::start(&request("Hello", "UTF-8", false, true, false)).unwrap();
    let events = scan(&mut run, "f", b"say hello now\n");
    assert_eq!(events.len(), 1);
    assert_eq!(events[0].start, 4);
    assert_eq!(events[0].end, 9);
    assert_eq!(events[0].line, "say hello now");
}

#[test]
fn case_sensitive_pattern_misses_other_case() {
    let mut run = started("Hello");
    assert!(scan(&mut run, "f", b"say hello now\n").is_empty());
}

#[test]
fn cancel_after_completion_has_no_effect() {
    let mut run = started("x");
    assert!(run.finish());
    run.cancel();
    run.cancel();
    assert_eq!(run.state_now(), RunState::Completed);
    assert!(!run.finish());
}

#[test]
fn cancel_stops_at_checkpoint_and_still_finishes_once() {
    let mut run = started("x");
    run.cancel();
    assert_eq!(run.state_now(), RunState::CancelRequested);
    assert_eq!(run.checkpoint(), Checkpoint::Stop);
    run.cancel();
    assert_eq!(run.state_now(), RunState::CancelRequested);
    assert!(run.finish());
    assert_eq!(run.state_now(), RunState::Cancelled);
    assert!(!run.finish());
}

#[test]
fn closed_sink_releases_no_finish() {
    let mut run = started("x");
    run.sink_failed();
    assert_eq!(run.checkpoint(), Checkpoint::Stop);
    assert!(!run.finish());
    assert_eq!(run.state_now(), RunState::Completed);
}

#[test]
fn line_numbers_count_every_line_and_crlf_is_stripped() {
    let mut run = started("ab");
    let events = scan(&mut run, "f", b"ab\r\nno\r\n\r\nxxab\r\n");
    assert_eq!(events.len(), 2);
    assert_eq!((events[0].lnum, events[0].line.as_str()), (1, "ab"));
    assert_eq!((events[1].lnum, events[1].line.as_str()), (4, "xxab"));
    assert_eq!((events[1].start, events[1].end), (2, 4));
}

#[test]
fn last_line_without_newline_is_scanned() {
    let mut run = started("end");
    let events = scan(&mut run, "f", b"one\nthe end");
    assert_eq!(events.len(), 1);
    assert_eq!(events[0].lnum, 2);
    assert_eq!(events[0].line, "the end");
    assert_eq!((events[0].start, events[0].end), (4, 7));
}

#[test]
fn utf16_file_is_decoded() {
    let mut run = EngineRun::start(&request("match", "UTF-16LE", false, false, false)).unwrap();
    let text = "no\nmy match\n";
    let mut bytes = Vec::new();
    for unit in text.encode_utf16() {
        bytes.extend_from_slice(&unit.to_le_bytes());
    }
    let events = scan(&mut run, "w", &bytes);
    assert_eq!(events.len(), 1);
    assert_eq!(events[0].lnum, 2);
    assert_eq!(events[0].line, "my match");
    assert_eq!((events[0].start, events[0].end), (3, 8));
}

#[test]
fn multi_line_anchors_at_line_boundaries() {
    let mut run = EngineRun::start(&request("^done$", "UTF-8", false, false, true)).unwrap();
    let events = scan(&mut run, "f", b"hello\nnot done yet\ndone\n");
    assert_eq!(events.len(), 1);
    assert_eq!(events[0].lnum, 3);
    assert_eq!((events[0].start, events[0].end), (0, 4));
}

#[test]
fn matcher_reports_first_span() {
    let m = PatternMatcher::compile("o+", false, false).ok().unwrap();
    assert_eq!(m.find(b"foo boooo"), Some((1, 3)));
    assert_eq!(m.find(b"bar"), None);
    assert!(PatternMatcher::compile("a{", false, false).is_err());
}

#[test]
fn strip_removes_lf_and_crlf_only() {
    let mut a = b"line\r\n".to_vec();
    strip_line_terminator(&mut a);
    assert_eq!(a, b"line".to_vec());
    let mut b = b"line\n".to_vec();
    strip_line_terminator(&mut b);
    assert_eq!(b, b"line".to_vec());
    let mut c = b"line\r".to_vec();
    strip_line_terminator(&mut c);
    assert_eq!(c, b"line\r".to_vec());
    let mut d: Vec<u8> = Vec::new();
    strip_line_terminator(&mut d);
    assert!(d.is_empty());
}

#[test]
fn event_for_line_builds_or_declines() {
    let path = "p".to_string();
    let e = event_for_line(&path, 7, b"say hi".to_vec(), Some((4, 6))).unwrap();
    assert_eq!((e.path.as_str(), e.lnum, e.line.as_str(), e.start, e.end), ("p", 7, "say hi", 4, 6));
    assert!(event_for_line(&path, 1, b"say hi".to_vec(), None).is_none());
    assert!(event_for_line(&path, 1, vec![0xff, 0x61], Some((1, 2))).is_none());
}

#[test]
fn default_match_result_is_empty() {
    let d = MatchResult::default();
    assert_eq!((d.path.as_str(), d.lnum, d.line.as_str(), d.start, d.end), ("", 0, "", 0, 0));
}

#[test]
fn matches_never_span_two_lines() {
    let mut run = started("a\\sb");
    let events = scan(&mut run, "f", b"a\nb\na b\n");
    assert_eq!(events.len(), 1);
    assert_eq!(events[0].lnum, 3);
    assert_eq!(events[0].line, "a b");
}

#[test]
fn pattern_with_literal_line_feed_is_accepted_and_matches_no_line() {
    let mut run = EngineRun::start(&request("a\\nb", "UTF-8", false, false, false)).unwrap();
    assert_eq!(run.state_now(), RunState::Running);
    assert!(scan(&mut run, "f", b"a\nb\n").is_empty());
    assert!(run.finish());
}

#[test]
fn events_from_given_lines() {
    let m = PatternMatcher::compile("match", false, false).ok().unwrap();
    let lines = vec![
        (2u64, b"world match here\r\n".to_vec()),
        (5u64, b"nothing\n".to_vec()),
        (7u64, vec![0xff, b'm', b'a', b't', b'c', b'h', b'\n']),
        (9u64, b"match".to_vec()),
    ];
    let events = events_from_lines(&m, &"p".to_string(), &lines);
    assert_eq!(events.len(), 2);
    assert_eq!((events[0].lnum, events[0].line.as_str(), events[0].start, events[0].end), (2, "world match here", 6, 11));
    assert_eq!((events[1].lnum, events[1].line.as_str(), events[1].start, events[1].end), (9, "match", 0, 5));
}
