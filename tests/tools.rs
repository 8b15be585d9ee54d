use session_viewer::codex::projects::get_projects;
use session_viewer::codex::sessions::{get_sessions, list_all_sessions, SessionFile};
use session_viewer::codex::stats::get_stats;
use session_viewer::dispatch::Tool;
use session_viewer::terminal::{normalize_path, resolve_project_path, resume_command};
use session_viewer::watcher::{change_payload, determine_tool, has_relevant_files};

fn rollout(path: &str, id: &str, cwd: &str, provider: &str, tokens: Option<(u64, u64, u64)>, secs: i64) -> SessionFile {
    let mut lines = vec![
        format!(
            r#"{{"type":"session_meta","payload":{{"id":"{}","cwd":"{}","model_provider":"{}"}}}}"#,
            id, cwd, provider
        ),
        r#"{"type":"response_item","payload":{"type":"message","role":"user","content":[{"type":"input_text","text":"hi"}]}}"#.to_string(),
    ];
    if let Some((i, o, t)) = tokens {
        lines.push(format!(
            r#"{{"type":"event_msg","payload":{{"type":"token_count","info":{{"total_token_usage":{{"input_tokens":{},"output_tokens":{},"total_tokens":{}}}}}}}}}"#,
            i, o, t
        ));
    }
    SessionFile { path: path.to_string(), content: lines.join("\n"), created_secs: Some(secs), modified_secs: Some(secs) }
}

fn corpus() -> Vec<SessionFile> {
    vec![
        rollout("/s/2025/01/02/rollout-1-a.jsonl", "a", "/w/one", "openai", Some((10, 5, 15)), 100),
        rollout("/s/2025/01/01/rollout-1-b.jsonl", "b", "/w/two", "azure", Some((1, 1, 2)), 300),
        rollout("/s/2025/01/02/rollout-1-c.jsonl", "c", "/w/one", "openai", None, 200),
        rollout("/s/misc/rollout-1-d.jsonl", "d", "", "openai", Some((3, 3, 6)), 50),
    ]
}

#[test]
fn codex_sessions_newest_first() {
    let s = list_all_sessions(&corpus());
    let ids: Vec<&str> = s.iter().map(|e| e.session_id.as_str()).collect();
    assert_eq!(ids, vec!["b", "c", "a", "d"]);
    assert_eq!(s[3].short_name, "unknown");
    assert_eq!(s[0].message_count, 1);
    assert_eq!(s[0].first_prompt.as_deref(), Some("hi"));
    let one = get_sessions(&corpus(), Some("/w/one".to_string()));
    let ids: Vec<&str> = one.iter().map(|e| e.session_id.as_str()).collect();
    assert_eq!(ids, vec!["c", "a"]);
}

#[test]
fn codex_projects_grouped_by_directory() {
    let p = get_projects(&corpus());
    assert_eq!(p.len(), 2);
    assert_eq!(p[0].cwd, "/w/two");
    assert_eq!(p[1].cwd, "/w/one");
    assert_eq!(p[1].session_count, 2);
    assert_eq!(p[1].short_name, "one");
    assert_eq!(p[1].last_modified.as_deref(), Some("1970-01-01T00:03:20+00:00"));
}

#[test]
fn codex_stats_add_up() {
    let s = get_stats(&corpus());
    assert_eq!(s.session_count, 4);
    assert_eq!(s.message_count, 4);
    assert_eq!((s.total_input_tokens, s.total_output_tokens, s.total_tokens), (14, 9, 23));
    assert_eq!(s.tokens_by_model, vec![("openai".to_string(), 21), ("azure".to_string(), 2)]);
    let days: Vec<(&str, u64)> = s.daily_tokens.iter().map(|d| (d.date.as_str(), d.total_tokens)).collect();
    assert_eq!(days, vec![("2025-01-01", 2), ("2025-01-02", 15)]);
}

#[test]
fn codex_stats_of_nothing_are_zero() {
    let s = get_stats(&Vec::new());
    assert_eq!((s.session_count, s.message_count, s.total_tokens), (0, 0, 0));
    assert!(s.daily_tokens.is_empty() && s.tokens_by_model.is_empty());
}

#[test]
fn paths_and_commands() {
    assert_eq!(normalize_path("a\\b/c", false), "a/b/c");
    assert_eq!(normalize_path("a\\b/c", true), "a\\b\\c");
    let c = vec![("/gone".to_string(), false), ("/there".to_string(), true)];
    assert_eq!(resolve_project_path(&c, "/fallback"), "/there");
    assert_eq!(resolve_project_path(&Vec::new(), "/fallback"), "/fallback");
    assert_eq!(resume_command(Tool::Claude, "prog", "/w", "abc"), "cd '/w' && prog --resume abc");
    assert_eq!(resume_command(Tool::Codex, "codex", "/w", "abc"), "cd '/w' && codex resume abc");
}

#[test]
fn changes_are_attributed_to_tools() {
    let a_dir = Some("/h/.a/projects".to_string());
    let codex = Some("/h/.codex/sessions".to_string());
    let paths = vec!["/h/.codex/sessions/2025/01/01/x.jsonl".to_string()];
    assert_eq!(determine_tool(&paths, &a_dir, &codex), Some(Tool::Codex));
    let paths = vec!["/tmp/y".to_string(), "/h/.a/projects/p/s.jsonl".to_string()];
    assert_eq!(determine_tool(&paths, &a_dir, &codex), Some(Tool::Claude));
    assert_eq!(determine_tool(&vec!["/tmp/z".to_string()], &a_dir, &codex), None);
    assert!(has_relevant_files(&vec!["/a/b.json".to_string()]));
    assert!(!has_relevant_files(&vec!["/a/b.txt".to_string(), "/a/.json".to_string()]));
    let p = change_payload(vec!["/h/.a/projects/p/s.jsonl".to_string()], &a_dir, &codex).unwrap();
    assert_eq!(p.tool, Some(Tool::Claude));
    assert!(change_payload(vec!["/a/b.tmp".to_string()], &a_dir, &codex).is_none());
}
