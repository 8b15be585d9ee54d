use session_viewer::claude::projects::{get_projects, ProjectDir};
use session_viewer::claude::messages::parse_all_messages;
use session_viewer::claude::sessions::{
    count_messages, extract_first_prompt, extract_session_metadata, merge_sessions, parse_sessions_index,
    scan_single_session, sessions_to_scan, DiskSession,
};
use session_viewer::claude::stats::{empty_stats_cache, get_token_summary, parse_stats_cache};
use session_viewer::shared_models::DisplayContentBlock;

fn disk(id: &str, secs: i64) -> DiskSession {
    let content = format!(
        "{}\n{}",
        format!(r#"{{"type":"user","sessionId":"{}","cwd":"/w/p","gitBranch":"dev","message":{{"role":"user","content":"question for {}"}}}}"#, id, id),
        r#"{"type":"assistant","message":{"role":"assistant","content":[{"type":"text","text":"answer"}]}}"#
    );
    DiskSession {
        session_id: id.to_string(),
        path: format!("/p/{}.jsonl", id),
        content,
        created_secs: Some(secs),
        modified_secs: Some(secs),
        modified_millis: Some(secs as u64 * 1000),
    }
}

const INDEX: &str = r#"{"version":1,"originalPath":"/w/p","entries":[
 {"sessionId":"A","modified":"2025-01-02T00:00:00Z","messageCount":3,"firstPrompt":"a"},
 {"sessionId":"B","modified":"2025-01-05T00:00:00Z","isSidechain":false}]}"#;

#[test]
fn blocks_of_each_kind() {
    let line = r#"{"type":"assistant","uuid":"u1","timestamp":"ts","message":{"role":"assistant","content":[
        {"type":"thinking","thinking":"hmm"},
        {"type":"tool_use","id":"t1","name":"Read","input":{"path":"a"}},
        {"type":"tool_result","tool_use_id":"t1","content":"ok","is_error":true},
        {"type":"image","source":{}},
        {"type":"text","text":"done"}]}}"#;
    let text = line.replace('\n', " ");
    let ms = parse_all_messages(&text);
    assert_eq!(ms.len(), 1);
    assert_eq!(ms[0].uuid.as_deref(), Some("u1"));
    assert_eq!(ms[0].timestamp.as_deref(), Some("ts"));
    assert_eq!(
        ms[0].content,
        vec![
            DisplayContentBlock::Thinking { thinking: "hmm".to_string() },
            DisplayContentBlock::ToolUse {
                id: "t1".to_string(),
                name: "Read".to_string(),
                input: "{\n  \"path\": \"a\"\n}".to_string(),
            },
            DisplayContentBlock::ToolResult { tool_use_id: "t1".to_string(), content: "ok".to_string(), is_error: true },
            DisplayContentBlock::Text { text: "done".to_string() },
        ]
    );
}

#[test]
fn other_record_types_give_no_message() {
    let text = [
        r#"{"type":"summary","summary":"s"}"#,
        r#"{"type":"user","message":{"role":"user","content":[{"type":"image"}]}}"#,
        r#"{"type":"user","message":{"role":"user","content":"hello"}}"#,
    ]
    .join("\n");
    let ms = parse_all_messages(&text);
    assert_eq!(ms.len(), 1);
    assert_eq!(ms[0].content, vec![DisplayContentBlock::Text { text: "hello".to_string() }]);
}

#[test]
fn index_is_read() {
    let ix = parse_sessions_index(INDEX).unwrap();
    assert_eq!(ix.original_path.as_deref(), Some("/w/p"));
    assert_eq!(ix.entries.len(), 2);
    assert_eq!(ix.entries[0].session_id, "A");
    assert_eq!(ix.entries[0].message_count, Some(3));
    assert_eq!(ix.entries[1].is_sidechain, Some(false));
    assert!(parse_sessions_index("{\"entries\":[{\"nope\":1}]}").is_none());
    assert!(parse_sessions_index("not json").is_none());
}

#[test]
fn index_and_disk_are_reconciled() {
    let ix = parse_sessions_index(INDEX).unwrap();
    let disk_ids: Vec<String> = vec!["A".into(), "B".into(), "C".into()];
    let to_scan = sessions_to_scan(&Some(ix.clone()), &disk_ids);
    assert_eq!(to_scan, vec![2]);
    let scanned: Vec<_> = to_scan.iter().map(|&i| scan_single_session(&disk(&disk_ids[i], 1736380800))).collect();
    let merged = merge_sessions(Some(ix), scanned);
    let mut ids: Vec<String> = merged.iter().map(|e| e.session_id.clone()).collect();
    assert_eq!(ids.len(), 3);
    assert_eq!(ids, vec!["C", "B", "A"]);
    ids.sort();
    ids.dedup();
    assert_eq!(ids.len(), 3);
}

#[test]
fn stale_index_entries_are_kept() {
    let ix = parse_sessions_index(INDEX).unwrap();
    let disk_ids: Vec<String> = vec!["A".into()];
    let to_scan = sessions_to_scan(&Some(ix.clone()), &disk_ids);
    assert!(to_scan.is_empty());
    let merged = merge_sessions(Some(ix), Vec::new());
    assert_eq!(merged.len(), 2);
}

#[test]
fn without_index_every_file_is_read() {
    let disk_ids: Vec<String> = vec!["A".into(), "B".into()];
    assert_eq!(sessions_to_scan(&None, &disk_ids), vec![0, 1]);
    let empty = parse_sessions_index("{\"entries\":[]}").unwrap();
    assert_eq!(sessions_to_scan(&Some(empty.clone()), &disk_ids), vec![0, 1]);
    let scanned = vec![scan_single_session(&disk("A", 100)), scan_single_session(&disk("B", 200))];
    let merged = merge_sessions(Some(empty), scanned);
    let ids: Vec<&str> = merged.iter().map(|e| e.session_id.as_str()).collect();
    assert_eq!(ids, vec!["B", "A"]);
}

#[test]
fn scanned_entry_facts() {
    let e = scan_single_session(&disk("X", 0));
    assert_eq!(e.session_id, "X");
    assert_eq!(e.full_path.as_deref(), Some("/p/X.jsonl"));
    assert_eq!(e.first_prompt.as_deref(), Some("question for X"));
    assert_eq!(e.message_count, Some(2));
    assert_eq!(e.git_branch.as_deref(), Some("dev"));
    assert_eq!(e.project_path.as_deref(), Some("/w/p"));
    assert_eq!(e.modified.as_deref(), Some("1970-01-01T00:00:00+00:00"));
    assert_eq!(e.file_mtime, Some(0));
    assert_eq!(e.is_sidechain, Some(false));
}

#[test]
fn helpers_on_session_text() {
    let d = disk("Q", 5);
    assert_eq!(count_messages(&d.content), 2);
    assert_eq!(extract_first_prompt(&d.content).as_deref(), Some("question for Q"));
    let (id, branch, cwd) = extract_session_metadata(&d.content).unwrap();
    assert_eq!(id, "Q");
    assert_eq!(branch.as_deref(), Some("dev"));
    assert_eq!(cwd.as_deref(), Some("/w/p"));
    assert!(extract_session_metadata("{}").is_none());
}

#[test]
fn empty_cache_gives_zero_summary() {
    let s = get_token_summary(&empty_stats_cache());
    assert_eq!((s.total_input_tokens, s.total_output_tokens, s.total_tokens), (0, 0, 0));
    assert!(s.tokens_by_model.is_empty());
    assert!(s.daily_tokens.is_empty());
    let c = parse_stats_cache("{}").unwrap();
    let s = get_token_summary(&c);
    assert_eq!(s.total_tokens, 0);
    assert!(parse_stats_cache("oops").is_err());
}

#[test]
fn daily_split_follows_global_input_share() {
    let text = r#"{"lastComputedDate":"2025-01-03",
      "modelUsage":{"m1":{"inputTokens":100,"outputTokens":300,"cacheReadInputTokens":50,"cacheCreationInputTokens":50}},
      "dailyModelTokens":[{"date":"2025-01-01","tokensByModel":{"m1":1000,"m2":1}},{"date":"2025-01-02","tokensByModel":{"m1":10}}]}"#;
    let c = parse_stats_cache(text).unwrap();
    assert_eq!(c.last_computed_date.as_deref(), Some("2025-01-03"));
    let s = get_token_summary(&c);
    assert_eq!(s.total_input_tokens, 200);
    assert_eq!(s.total_output_tokens, 300);
    assert_eq!(s.total_tokens, 1011);
    assert_eq!(s.tokens_by_model, vec![("m1".to_string(), 1010), ("m2".to_string(), 1)]);
    assert_eq!(s.daily_tokens.len(), 2);
    assert_eq!(s.daily_tokens[0].date, "2025-01-01");
    assert_eq!(s.daily_tokens[0].total_tokens, 1001);
    assert_eq!(s.daily_tokens[0].input_tokens, 1001 * 200 / 500);
    assert_eq!(s.daily_tokens[0].output_tokens, 1001 - 1001 * 200 / 500);
    assert_eq!(s.daily_tokens[1].input_tokens, 4);
    assert_eq!(s.daily_tokens[1].output_tokens, 6);
}

#[test]
fn split_is_even_when_nothing_is_recorded() {
    let text = r#"{"dailyModelTokens":[{"date":"d","tokensByModel":{"m":7}}]}"#;
    let s = get_token_summary(&parse_stats_cache(text).unwrap());
    assert_eq!(s.daily_tokens[0].input_tokens, 3);
    assert_eq!(s.daily_tokens[0].output_tokens, 4);
}

#[test]
fn project_directories_become_projects() {
    let dirs = vec![
        ProjectDir { encoded_name: "-w-p".to_string(), index: Some(INDEX.to_string()), jsonl_count: 7, modified_secs: Some(10) },
        ProjectDir { encoded_name: "-w-q".to_string(), index: None, jsonl_count: 3, modified_secs: Some(20) },
        ProjectDir { encoded_name: "-w-empty".to_string(), index: Some("{\"entries\":[]}".to_string()), jsonl_count: 0, modified_secs: Some(30) },
    ];
    let ps = get_projects(&dirs);
    assert_eq!(ps.len(), 2);
    assert_eq!(ps[0].encoded_name, "-w-q");
    assert_eq!(ps[0].display_path, "-w-q");
    assert_eq!(ps[0].session_count, 3);
    assert_eq!(ps[1].display_path, "/w/p");
    assert_eq!(ps[1].short_name, "p");
    assert_eq!(ps[1].session_count, 2);
}

#[test]
fn search_in_session_files() {
    use_search();
}

fn use_search() {
    let content = [
        r#"{"type":"user","sessionId":"S","cwd":"/w/proj","message":{"role":"user","content":"where is UNIQUETOKEN123?"}}"#,
        r#"{"type":"assistant","message":{"role":"assistant","content":[{"type":"thinking","thinking":"look for uniquetoken123"},{"type":"tool_use","id":"t","name":"Grep","input":{"q":"UNIQUETOKEN123"}}]}}"#,
    ]
    .join("\n");
    let files = vec![("/p/-w-proj/abc.jsonl".to_string(), content)];
    let rs = session_viewer::claude::search::global_search("UNIQUETOKEN123", 10, &files);
    assert_eq!(rs.len(), 3);
    assert!(rs.iter().all(|r| r.matched_text.to_lowercase().contains("uniquetoken123")));
    assert_eq!(rs[0].session_id, "abc");
    assert_eq!(rs[0].cwd, "/w/proj");
    assert_eq!(rs[0].short_name, "proj");
    assert_eq!(rs[0].first_prompt.as_deref(), Some("where is UNIQUETOKEN123?"));
    assert_eq!(rs[1].role, "assistant");
    assert!(session_viewer::claude::search::global_search("", 10, &files).is_empty());
    assert!(session_viewer::claude::search::global_search("absent", 10, &files).is_empty());
}
