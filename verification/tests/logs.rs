use execution_processes::logs::{
    latest_turn, log_or_none, logs_page, read_messages, shows_soft_deleted,
};
use execution_processes::page::{paginate, LogsQuery};
use serde_json::Value;

fn numbers(count: i64) -> Vec<Value> {
    (0..count).map(Value::from).collect()
}

fn line(event: &str) -> String {
    let payload = format!(r#"{{"type": "stream_event", "event": {}}}"#, event);
    let mut outer = serde_json::Map::new();
    outer.insert("Stdout".to_string(), Value::String(payload));
    format!("{}\n", Value::Object(outer))
}

fn log(texts: &[&str]) -> String {
    let mut raw = String::new();
    for text in texts {
        raw.push_str(&line(r#"{"type": "message_start", "message": {"role": "assistant"}}"#));
        raw.push_str(&line(
            r#"{"type": "content_block_delta", "delta": {"type": "thinking_delta", "thinking": "hm"}}"#,
        ));
        raw.push_str(&line(&format!(
            r#"{{"type": "content_block_delta", "delta": {{"type": "text_delta", "text": "{}"}}}}"#,
            text
        )));
        raw.push_str("not a line of the log\n");
    }
    raw
}

fn found(raw: &str) -> Result<Option<String>, String> {
    Ok(Some(raw.to_string()))
}

fn said(message: &Value) -> &str {
    message["content"][0]["text"].as_str().unwrap()
}

fn query(page: Option<u64>, limit: Option<u64>) -> LogsQuery {
    LogsQuery { page, limit }
}

#[test]
fn page_has_defaults() {
    let response = paginate(numbers(45), &query(None, None));
    assert_eq!(response.total, 45);
    assert_eq!(response.page, 1);
    assert_eq!(response.limit, 20);
    assert_eq!(response.messages, numbers(20));
}

#[test]
fn page_and_limit_are_kept_in_bounds() {
    let low = paginate(numbers(5), &query(Some(0), Some(0)));
    assert_eq!((low.page, low.limit), (1, 1));
    assert_eq!(low.messages, numbers(1));
    let high = paginate(numbers(250), &query(Some(2), Some(1000)));
    assert_eq!((high.page, high.limit, high.total), (2, 100, 250));
    assert_eq!(high.messages, numbers(250)[100..200]);
    let exact = paginate(numbers(250), &query(Some(3), Some(100)));
    assert_eq!(exact.messages, numbers(250)[200..]);
}

#[test]
fn page_behind_the_last_is_empty() {
    let response = paginate(numbers(40), &query(Some(3), None));
    assert_eq!((response.page, response.total), (3, 40));
    assert!(response.messages.is_empty());
    let far = paginate(numbers(3), &query(Some(u64::MAX), Some(1)));
    assert!(far.messages.is_empty());
    assert!(paginate(Vec::new(), &query(None, None)).messages.is_empty());
}

#[test]
fn pages_join_to_all_messages() {
    for limit in [1, 7, 20, 33] {
        let mut joined: Vec<Value> = Vec::new();
        for page in 1..=40 {
            joined.extend(paginate(numbers(33), &query(Some(page), Some(limit))).messages);
        }
        assert_eq!(joined, numbers(33));
    }
}

#[test]
fn range_of_pages_is_told() {
    assert!(query(None, None).in_range());
    assert!(query(Some(u64::MAX), Some(1)).in_range());
    assert!(!query(Some(u64::MAX), Some(2)).in_range());
    assert!(query(Some(u64::MAX / 100 + 1), Some(100)).in_range());
    assert!(!query(Some(u64::MAX / 100 + 2), Some(100)).in_range());
    assert_eq!(query(Some(0), None).effective_page(), 1);
    assert_eq!(query(None, Some(101)).effective_limit(), 100);
}

#[test]
fn latest_turn_is_the_last_message() {
    let raw = log(&["one", "two", "three"]);
    let turn = latest_turn(found(&raw)).unwrap();
    assert_eq!(said(&turn), "three");
    let page = logs_page(found(&raw), &query(Some(2), Some(2)));
    assert_eq!(page.messages.last(), Some(&turn));
}

#[test]
fn logs_are_paged() {
    let raw = log(&["a", "b", "c", "d", "e"]);
    let response = logs_page(found(&raw), &query(Some(2), Some(2)));
    assert_eq!((response.total, response.page, response.limit), (5, 2, 2));
    let texts: Vec<&str> = response.messages.iter().map(said).collect();
    assert_eq!(texts, vec!["c", "d"]);
}

#[test]
fn missing_log_has_no_messages() {
    assert!(latest_turn::<String>(Ok(None)).is_none());
    assert!(latest_turn(found("")).is_none());
    let response = logs_page::<String>(Ok(None), &query(None, None));
    assert_eq!(response.total, 0);
    assert!(response.messages.is_empty());
    assert!(read_messages(None).is_empty());
}

#[test]
fn failed_read_is_as_no_log() {
    let failed = || Err::<Option<String>, String>("disk on fire".to_string());
    assert_eq!(log_or_none(failed()), None);
    assert_eq!(log_or_none(found("text")), Some("text".to_string()));
    assert_eq!(log_or_none::<String>(Ok(None)), None);
    assert!(latest_turn(failed()).is_none());
    for read in [failed(), Ok(None), found("")] {
        let response = logs_page(read, &query(Some(3), Some(7)));
        assert!(response.messages.is_empty());
        assert_eq!((response.total, response.page, response.limit), (0, 3, 7));
    }
}

#[test]
fn growing_log_keeps_complete_messages() {
    let raw = log(&["one", "two"]);
    let before = read_messages(Some(raw.clone()));
    let piece = line(r#"{"type": "content_block_delta", "delta": {"type": "text_delta", "text": "!"}}"#);
    let after = read_messages(Some(raw + &piece));
    assert_eq!(before.len(), 2);
    assert_eq!(after[0], before[0]);
    assert_eq!(said(&after[1]), "two!");
}

#[test]
fn messages_of_a_log_say_something() {
    let mut raw = log(&["one"]);
    raw.push_str(&line(r#"{"type": "message_start", "message": {"role": "user"}}"#));
    raw.push_str(&line(
        r#"{"type": "content_block_start", "content_block": {"type": "tool_use", "text": "x"}}"#,
    ));
    let messages = read_messages(Some(raw));
    assert_eq!(messages.len(), 1);
    assert_eq!(messages[0]["role"], "assistant");
    assert_eq!(messages[0]["content"].as_array().unwrap().len(), 1);
    assert_eq!(messages[0]["content"][0]["type"], "text");
}

#[test]
fn soft_deleted_processes_are_shown_on_demand() {
    assert!(!shows_soft_deleted(None));
    assert!(!shows_soft_deleted(Some(false)));
    assert!(shows_soft_deleted(Some(true)));
}
