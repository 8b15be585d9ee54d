use session_viewer::codex::search::{extract_context, global_search, merge_results, safe_truncate, search_file};
use session_viewer::opencode::search::{extract_match_context, global_search as opencode_search};

const META: &str = r#"{"timestamp":"t0","type":"session_meta","payload":{"id":"sess-1","cwd":"/home/u/proj"}}"#;

fn user_line(text: &str) -> String {
    format!(
        r#"{{"timestamp":"t1","type":"response_item","payload":{{"type":"message","role":"user","content":[{{"type":"input_text","text":"{}"}}]}}}}"#,
        text
    )
}

fn assistant_line(text: &str) -> String {
    format!(
        r#"{{"timestamp":"t2","type":"response_item","payload":{{"type":"message","role":"assistant","content":[{{"type":"output_text","text":"{}"}}]}}}}"#,
        text
    )
}

#[test]
fn unique_token_is_found() {
    let content = [META.to_string(), user_line("please look at UNIQUETOKEN123 here")].join("\n");
    let files = vec![("/s/2025/01/01/rollout-1-a.jsonl".to_string(), content)];
    let rs = global_search("UNIQUETOKEN123", 10, &files);
    assert!(!rs.is_empty());
    assert!(rs.iter().any(|r| r.matched_text.contains("UNIQUETOKEN123")));
    assert_eq!(rs[0].session_id, "sess-1");
    assert_eq!(rs[0].cwd, "/home/u/proj");
    assert_eq!(rs[0].short_name, "proj");
    assert_eq!(rs[0].role, "user");
    assert_eq!(rs[0].first_prompt.as_deref(), Some("please look at UNIQUETOKEN123 here"));
}

#[test]
fn search_ignores_case() {
    let content = [META.to_string(), assistant_line("The Answer is HERE")].join("\n");
    let files = vec![("/f.jsonl".to_string(), content)];
    let rs = global_search("answer", 10, &files);
    assert_eq!(rs.len(), 1);
    assert_eq!(rs[0].matched_text, "The Answer is HERE");
    assert_eq!(rs[0].first_prompt, None);
}

#[test]
fn empty_query_finds_nothing() {
    let content = [META.to_string(), user_line("anything")].join("\n");
    let files = vec![("/f.jsonl".to_string(), content)];
    assert!(global_search("", 10, &files).is_empty());
}

#[test]
fn at_most_five_results_per_file_and_max_overall() {
    let mut lines = vec![META.to_string()];
    for i in 0..8 {
        lines.push(assistant_line(&format!("needle {}", i)));
    }
    let content = lines.join("\n");
    let files = vec![("/a.jsonl".to_string(), content.clone()), ("/b.jsonl".to_string(), content)];
    let rs = global_search("needle", 100, &files);
    assert_eq!(rs.len(), 10);
    assert_eq!(rs[0].file_path, "/a.jsonl");
    assert_eq!(rs[5].file_path, "/b.jsonl");
    let rs = global_search("needle", 3, &files);
    assert_eq!(rs.len(), 3);
}

#[test]
fn file_without_session_record_uses_file_stem() {
    let content = user_line("needle");
    let rs = search_file("needle", &content, "/x/rollout-9-abc.jsonl");
    assert_eq!(rs.len(), 1);
    assert_eq!(rs[0].session_id, "rollout-9-abc");
    assert_eq!(rs[0].cwd, "");
}

#[test]
fn merging_keeps_file_order_and_cuts() {
    let a = search_file("needle", &[META.to_string(), user_line("needle a")].join("\n"), "/a");
    let b = search_file("needle", &[META.to_string(), user_line("needle b")].join("\n"), "/b");
    let all = merge_results(vec![a.clone(), b.clone()], 10);
    assert_eq!(all.len(), 2);
    assert_eq!(all[0].file_path, "/a");
    assert_eq!(all[1].file_path, "/b");
    assert_eq!(merge_results(vec![a, b], 1).len(), 1);
}

#[test]
fn context_window_around_match() {
    let text = format!("{}MATCH{}", "a".repeat(60), "b".repeat(60));
    let ctx = extract_context(&text, "match", 50);
    assert_eq!(ctx, format!("{}MATCH{}", "a".repeat(50), "b".repeat(50)));
    let ctx = extract_context("short MATCH text", "match", 50);
    assert_eq!(ctx, "short MATCH text");
}

#[test]
fn context_falls_back_to_prefix() {
    let text = "x".repeat(150);
    let ctx = extract_context(&text, "zzz", 50);
    assert_eq!(ctx, format!("{}...", "x".repeat(100)));
}

#[test]
fn safe_truncate_on_characters() {
    assert_eq!(safe_truncate("ümläut", 3), "üml...");
    assert_eq!(safe_truncate("abc", 3), "abc");
}

#[test]
fn match_context_with_ellipses() {
    let text = format!("{}Needle{}", "a".repeat(150), "b".repeat(150));
    let ctx = extract_match_context(&text, "needle", 200);
    assert_eq!(ctx, format!("...{}Needle{}...", "a".repeat(100), "b".repeat(100)));
    assert_eq!(extract_match_context("a Needle b", "NEEDLE", 200), "a Needle b");
    assert_eq!(extract_match_context("no match here", "zzz", 4), "no m");
}

#[test]
fn match_context_is_safe_on_multibyte_text() {
    let text = format!("{}needle{}", "é".repeat(120), "日".repeat(120));
    let ctx = extract_match_context(&text, "needle", 200);
    assert!(ctx.starts_with("..."));
    assert!(ctx.ends_with("..."));
    assert!(ctx.contains("needle"));
}

#[test]
fn opencode_search_looks_at_titles_then_system_prompts() {
    let m1 = r#"{"id":"msg1","sessionID":"ses1","role":"user","time":{"created":1700000000000},"summary":{"title":"Fix the Parser"}}"#;
    let m2 = r#"{"id":"msg2","sessionID":"ses1","role":"assistant","time":{"created":1700000000000},"system":"you fix parsers"}"#;
    let m3 = r#"{"id":"msg3","sessionID":"ses1","role":"user","time":{"created":1}}"#;
    let sessions = vec![(
        "ses1".to_string(),
        vec![m1.to_string(), m2.to_string(), m3.to_string(), "broken".to_string()],
    )];
    let rs = opencode_search("parser", 10, &sessions);
    assert_eq!(rs.len(), 2);
    assert_eq!(rs[0].message_id, "msg1");
    assert_eq!(rs[0].matched_text, "Fix the Parser");
    assert_eq!(rs[0].session_id, "ses1");
    assert_eq!(rs[0].project_id, "");
    assert_eq!(rs[0].timestamp.as_deref(), Some("2023-11-14T22:13:20+00:00"));
    assert_eq!(rs[1].message_id, "msg2");
    assert_eq!(rs[1].role, "assistant");
    assert!(opencode_search("", 10, &sessions).is_empty());
    assert_eq!(opencode_search("parser", 1, &sessions).len(), 1);
}
