use session_viewer::codex::jsonl::{
    count_messages, extract_first_prompt, extract_session_meta, extract_token_info, parse_all_messages,
    parse_session_messages, truncate_string,
};
use session_viewer::codex::session_scanner::{
    extract_date_from_path, extract_session_id_from_filename, get_sessions_dir, short_name_from_path,
};
use session_viewer::shared_models::DisplayContentBlock;

const META: &str = r#"{"timestamp":"t0","type":"session_meta","payload":{"id":"abc-123","cwd":"/home/u/proj","cli_version":"0.5.0","model_provider":"openai","git":{"branch":"main"}}}"#;
const USER: &str = r#"{"timestamp":"t1","type":"response_item","payload":{"type":"message","role":"user","content":[{"type":"input_text","text":"fix the bug"}]}}"#;
const DEV: &str = r#"{"timestamp":"t2","type":"response_item","payload":{"type":"message","role":"developer","content":[{"type":"input_text","text":"secret instructions"}]}}"#;
const SYS: &str = r#"{"timestamp":"t2","type":"response_item","payload":{"type":"message","role":"system","content":"system text"}}"#;
const CALL: &str = r#"{"timestamp":"t3","type":"response_item","payload":{"type":"function_call","name":"shell","arguments":"{\"cmd\":\"ls\"}","call_id":"c1"}}"#;
const OUT: &str = r#"{"timestamp":"t4","type":"response_item","payload":{"type":"function_call_output","call_id":"c1","output":"file.txt"}}"#;
const REASON: &str = r#"{"timestamp":"t5","type":"response_item","payload":{"type":"reasoning","summary":[{"type":"summary_text","text":"first"},{"type":"summary_text","text":"second"}]}}"#;
const TOKENS1: &str = r#"{"timestamp":"t6","type":"event_msg","payload":{"type":"token_count","info":{"total_token_usage":{"input_tokens":10,"output_tokens":5,"total_tokens":15}}}}"#;
const TOKENS2: &str = r#"{"timestamp":"t7","type":"event_msg","payload":{"type":"token_count","info":{"total_token_usage":{"input_tokens":20,"output_tokens":7}}}}"#;

fn file(lines: &[&str]) -> String {
    lines.join("\n")
}

#[test]
fn messages_in_record_order_with_blocks() {
    let text = file(&[META, USER, CALL, OUT, REASON]);
    let ms = parse_all_messages(&text);
    assert_eq!(ms.len(), 4);
    assert_eq!(ms[0].role, "user");
    assert_eq!(ms[0].timestamp.as_deref(), Some("t1"));
    assert_eq!(ms[0].content, vec![DisplayContentBlock::Text { text: "fix the bug".to_string() }]);
    assert_eq!(ms[1].role, "assistant");
    assert_eq!(
        ms[1].content,
        vec![DisplayContentBlock::FunctionCall {
            name: "shell".to_string(),
            arguments: "{\n  \"cmd\": \"ls\"\n}".to_string(),
            call_id: "c1".to_string(),
        }]
    );
    assert_eq!(ms[2].role, "tool");
    assert_eq!(
        ms[2].content,
        vec![DisplayContentBlock::FunctionCallOutput { call_id: "c1".to_string(), output: "file.txt".to_string() }]
    );
    assert_eq!(ms[3].content, vec![DisplayContentBlock::Reasoning { text: "first\nsecond".to_string() }]);
}

#[test]
fn arguments_that_are_not_json_pass_through() {
    let line = r#"{"type":"response_item","payload":{"type":"function_call","arguments":"not json {","call_id":"c"}}"#;
    let ms = parse_all_messages(line);
    assert_eq!(
        ms[0].content,
        vec![DisplayContentBlock::FunctionCall {
            name: "unknown".to_string(),
            arguments: "not json {".to_string(),
            call_id: "c".to_string(),
        }]
    );
}

#[test]
fn reasoning_as_plain_text() {
    let line = r#"{"type":"response_item","payload":{"type":"reasoning","text":"thinking hard"}}"#;
    let ms = parse_all_messages(line);
    assert_eq!(ms[0].content, vec![DisplayContentBlock::Reasoning { text: "thinking hard".to_string() }]);
}

#[test]
fn developer_and_system_messages_are_dropped() {
    let text = file(&[DEV, USER, SYS, DEV]);
    let ms = parse_all_messages(&text);
    assert_eq!(ms.len(), 1);
    assert!(ms.iter().all(|m| m.role != "developer" && m.role != "system"));
}

#[test]
fn malformed_lines_are_skipped() {
    let text = file(&["not json", "", "{\"type\":", USER, "   ", "[1,2,3]"]);
    let ms = parse_all_messages(&text);
    assert_eq!(ms.len(), 1);
}

#[test]
fn a_prefix_of_the_file_gives_no_more_messages() {
    let lines = [META, USER, CALL, OUT, REASON, USER];
    let full = parse_all_messages(&file(&lines)).len();
    for k in 0..=lines.len() {
        let part = parse_all_messages(&file(&lines[..k])).len();
        assert!(part <= full);
    }
    let whole = file(&lines);
    for cut in 0..whole.len() {
        if whole.is_char_boundary(cut) {
            assert!(parse_all_messages(&whole[..cut]).len() <= full);
        }
    }
}

#[test]
fn blank_message_content_gives_no_message() {
    let line = r#"{"type":"response_item","payload":{"type":"message","role":"user","content":[{"type":"input_text","text":"   "}]}}"#;
    assert!(parse_all_messages(line).is_empty());
}

#[test]
fn paginated_rollout() {
    let text = file(&[USER, USER, USER]);
    let p = parse_session_messages(&text, 1, 2);
    assert_eq!(p.total, 3);
    assert_eq!(p.messages.len(), 1);
    assert!(!p.has_more);
}

#[test]
fn session_meta_from_first_lines() {
    let m = extract_session_meta(&file(&[META, USER])).unwrap();
    assert_eq!(m.id, "abc-123");
    assert_eq!(m.cwd, "/home/u/proj");
    assert_eq!(m.cli_version.as_deref(), Some("0.5.0"));
    assert_eq!(m.model_provider.as_deref(), Some("openai"));
    assert_eq!(m.git_branch.as_deref(), Some("main"));
}

#[test]
fn session_meta_beyond_five_lines_is_not_read() {
    let text = file(&[USER, USER, USER, USER, USER, META]);
    assert!(extract_session_meta(&text).is_none());
    let text = file(&[USER, USER, USER, USER, META]);
    assert!(extract_session_meta(&text).is_some());
}

#[test]
fn first_prompt_is_the_first_user_text() {
    let text = file(&[META, DEV, USER]);
    assert_eq!(extract_first_prompt(&text).as_deref(), Some("fix the bug"));
}

#[test]
fn first_prompt_is_cut_on_characters() {
    let long: String = "é".repeat(250);
    let line = format!(
        r#"{{"type":"response_item","payload":{{"type":"message","role":"user","content":[{{"type":"input_text","text":"{}"}}]}}}}"#,
        long
    );
    let p = extract_first_prompt(&line).unwrap();
    assert_eq!(p.chars().count(), 203);
    assert!(p.ends_with("..."));
    assert!(p.starts_with("éé"));
}

#[test]
fn truncation_keeps_short_text_and_marks_cut_text() {
    assert_eq!(truncate_string("héllo", 5), "héllo");
    assert_eq!(truncate_string("héllo wörld", 5), "héllo...");
    assert_eq!(truncate_string("日本語のテキスト", 3), "日本語...");
    assert_eq!(truncate_string("", 3), "");
}

#[test]
fn message_count_by_text() {
    let text = file(&[META, USER, DEV, SYS, CALL, USER]);
    assert_eq!(count_messages(&text), 2);
}

#[test]
fn last_token_count_wins_and_total_defaults_to_sum() {
    let t = extract_token_info(&file(&[TOKENS1, USER])).unwrap();
    assert_eq!((t.input_tokens, t.output_tokens, t.total_tokens), (10, 5, 15));
    let t = extract_token_info(&file(&[TOKENS1, TOKENS2])).unwrap();
    assert_eq!((t.input_tokens, t.output_tokens, t.total_tokens), (20, 7, 27));
    assert!(extract_token_info(&file(&[USER])).is_none());
}

#[test]
fn date_from_partitioned_path() {
    assert_eq!(
        extract_date_from_path("/home/u/.codex/sessions/2025/1/5/rollout-1-x.jsonl").as_deref(),
        Some("2025-01-05")
    );
    assert_eq!(
        extract_date_from_path("/home/u/.codex/sessions/2025/01/15/rollout-1-x.jsonl").as_deref(),
        Some("2025-01-15")
    );
    assert_eq!(extract_date_from_path("/home/u/.codex/sessions/misc/rollout.jsonl"), None);
    assert_eq!(extract_date_from_path("/a/25/01/15/x.jsonl"), None);
    assert_eq!(extract_date_from_path("x.jsonl"), None);
}

#[test]
fn session_id_from_rollout_name() {
    assert_eq!(
        extract_session_id_from_filename("/s/2025/01/01/rollout-2025-abc-def.jsonl").as_deref(),
        Some("abc-def")
    );
    assert_eq!(extract_session_id_from_filename("/s/other-name.jsonl").as_deref(), Some("other-name"));
    assert_eq!(extract_session_id_from_filename("/s/rollout-nodash.jsonl").as_deref(), Some("rollout-nodash"));
}

#[test]
fn short_names() {
    assert_eq!(short_name_from_path("/home/u/proj/"), "proj");
    assert_eq!(short_name_from_path("C:\\work\\app"), "app");
    assert_eq!(short_name_from_path("plain"), "plain");
    assert_eq!(short_name_from_path(""), "");
}

#[test]
fn sessions_dir_under_home() {
    assert_eq!(get_sessions_dir("/home/u"), "/home/u/.codex/sessions");
}

#[test]
fn reasoning_of_another_shape_is_shown_as_compact_json() {
    let line = r#"{"type":"response_item","payload":{"type":"reasoning","text":{"b": [1, 2],"a":true}}}"#;
    let ms = parse_all_messages(line);
    assert_eq!(ms[0].content, vec![DisplayContentBlock::Reasoning { text: "{\"a\":true,\"b\":[1,2]}".to_string() }]);
}

#[test]
fn output_that_is_not_a_string_is_pretty_printed() {
    let line = r#"{"type":"response_item","payload":{"type":"function_call_output","call_id":"c","output":{"ok":1}}}"#;
    let ms = parse_all_messages(line);
    assert_eq!(
        ms[0].content,
        vec![DisplayContentBlock::FunctionCallOutput { call_id: "c".to_string(), output: "{\n  \"ok\": 1\n}".to_string() }]
    );
}
