use session_viewer::opencode::messages::{get_messages, read_message_parts, MessageFile};
use session_viewer::opencode::models::{parse_message, parse_project, parse_session};
use session_viewer::opencode::projects::{find_last_modified_session, get_projects, ProjectSource};
use session_viewer::opencode::session_scanner::{
    count_messages, get_message_dir, get_storage_dir, scan_project_hashes, short_name_from_path,
};
use session_viewer::opencode::sessions::{
    extract_first_prompt, get_sessions, get_sessions_grouped, SessionIndexEntry, SessionSource,
};
use session_viewer::opencode::stats::get_stats;
use session_viewer::shared_models::DisplayContentBlock;

fn message(id: &str, role: &str, title: Option<&str>) -> String {
    match title {
        Some(t) => format!(
            r#"{{"id":"{}","sessionID":"s","role":"{}","time":{{"created":1700000000000}},"summary":{{"title":"{}"}}}}"#,
            id, role, t
        ),
        None => format!(r#"{{"id":"{}","sessionID":"s","role":"{}","time":{{"created":1700000000000}}}}"#, id, role),
    }
}

fn part(kind: &str, text: &str) -> String {
    format!(r#"{{"id":"p","messageID":"m","type":"{}","text":"{}"}}"#, kind, text)
}

#[test]
fn messages_from_parts_or_titles() {
    let files = vec![
        MessageFile { content: message("m2", "assistant", Some("Summary title")), parts: vec![], created_nanos: Some(20) },
        MessageFile {
            content: message("m1", "user", None),
            parts: vec![part("text", "one"), part("tool", "x"), part("text", "two")],
            created_nanos: Some(10),
        },
        MessageFile { content: message("m3", "assistant", None), parts: vec![], created_nanos: Some(5) },
        MessageFile { content: "broken".to_string(), parts: vec![], created_nanos: None },
        MessageFile { content: message("m4", "user", Some("   ")), parts: vec![], created_nanos: Some(30) },
    ];
    let p = get_messages(files.clone(), 0, 10);
    assert_eq!(p.total, 2);
    assert!(!p.has_more);
    assert_eq!(p.messages[0].uuid.as_deref(), Some("m1"));
    assert_eq!(p.messages[0].content, vec![DisplayContentBlock::Text { text: "one\n\ntwo".to_string() }]);
    assert_eq!(p.messages[0].timestamp.as_deref(), Some("2023-11-14T22:13:20+00:00"));
    assert_eq!(p.messages[1].content, vec![DisplayContentBlock::Text { text: "Summary title".to_string() }]);
    let p = get_messages(files, 1, 1);
    assert_eq!(p.total, 2);
    assert_eq!(p.messages.len(), 1);
    assert_eq!(p.messages[0].uuid.as_deref(), Some("m2"));
    assert!(get_messages(Vec::new(), 0, 5).messages.is_empty());
}

#[test]
fn only_text_parts_count() {
    let parts = vec![part("text", "a"), part("reasoning", "b"), "junk".to_string(), part("text", "c")];
    assert_eq!(read_message_parts(&parts), vec!["a".to_string(), "c".to_string()]);
}

#[test]
fn documents_need_their_required_fields() {
    assert!(parse_message(&message("m", "user", None)).is_ok());
    assert!(parse_message(r#"{"id":"m","role":"user","time":{"created":1}}"#).is_err());
    let p = parse_project(r#"{"id":"h","worktree":"/w/app","time":{"created":1,"updated":2},"sandboxes":[]}"#).unwrap();
    assert_eq!(p.worktree, "/w/app");
    assert!(parse_project(r#"{"id":"h","worktree":"/w/app"}"#).is_err());
    let s = parse_session(r#"{"id":"s1","projectID":"h","directory":"/w/app","parentID":"s0","time":{"created":1,"updated":2}}"#).unwrap();
    assert_eq!(s.parent_id.as_deref(), Some("s0"));
}

fn session_text(id: &str, parent: Option<&str>) -> String {
    match parent {
        Some(p) => format!(
            r#"{{"id":"{}","projectID":"h","directory":"/w/app","parentID":"{}","title":"T {}","time":{{"created":1,"updated":2}}}}"#,
            id, p, id
        ),
        None => format!(
            r#"{{"id":"{}","projectID":"h","directory":"/w/app","title":"T {}","time":{{"created":1,"updated":2}}}}"#,
            id, id
        ),
    }
}

#[test]
fn session_list_newest_first() {
    let srcs = vec![
        SessionSource { content: session_text("old", None), messages: None, created_secs: Some(10), modified_secs: Some(10) },
        SessionSource {
            content: session_text("new", None),
            messages: Some(vec![message("m1", "user", Some("first question")), message("m2", "assistant", None)]),
            created_secs: Some(20),
            modified_secs: Some(20),
        },
        SessionSource { content: "not a session".to_string(), messages: None, created_secs: None, modified_secs: None },
    ];
    let s = get_sessions(&srcs);
    assert_eq!(s.len(), 2);
    assert_eq!(s[0].session_id, "new");
    assert_eq!(s[0].message_count, 2);
    assert_eq!(s[0].first_prompt.as_deref(), Some("first question"));
    assert_eq!(s[0].short_name, "app");
    assert_eq!(s[1].session_id, "old");
    assert_eq!(s[1].message_count, 0);
    assert_eq!(s[1].first_prompt, None);
}

#[test]
fn first_prompt_from_system_prompt_is_cut() {
    let sys = format!(
        r#"{{"id":"m","sessionID":"s","role":"user","time":{{"created":1}},"system":"{}"}}"#,
        "ß".repeat(150)
    );
    let p = extract_first_prompt(&vec![message("a", "assistant", Some("not me")), sys]).unwrap();
    assert_eq!(p.chars().count(), 103);
    assert!(p.ends_with("..."));
}

fn entry(id: &str, parent: Option<&str>, created: &str, modified: &str) -> SessionIndexEntry {
    SessionIndexEntry {
        session_id: id.to_string(),
        project_id: "h".to_string(),
        directory: "/w".to_string(),
        short_name: "w".to_string(),
        title: None,
        slug: None,
        first_prompt: None,
        message_count: 0,
        created: Some(created.to_string()),
        modified: Some(modified.to_string()),
        git_branch: None,
        parent_id: parent.map(|p| p.to_string()),
    }
}

#[test]
fn sessions_grouped_under_their_roots() {
    let all = vec![
        entry("r1", None, "1", "5"),
        entry("c2", Some("r1"), "3", "3"),
        entry("r2", None, "2", "9"),
        entry("c1", Some("r1"), "2", "2"),
        entry("orphan", Some("gone"), "1", "1"),
    ];
    let g = get_sessions_grouped(all);
    assert_eq!(g.len(), 2);
    assert_eq!(g[0].root_session.session_id, "r2");
    assert!(g[0].sub_sessions.is_empty());
    assert_eq!(g[1].root_session.session_id, "r1");
    let subs: Vec<&str> = g[1].sub_sessions.iter().map(|s| s.session_id.as_str()).collect();
    assert_eq!(subs, vec!["c1", "c2"]);
}

#[test]
fn projects_newest_first() {
    let proj_one = r#"{"id":"h1","worktree":"/w/one","time":{"created":1,"updated":2},"sandboxes":[]}"#;
    let proj_two = r#"{"id":"h2","worktree":"/w/two/","time":{"created":1,"updated":2},"sandboxes":[]}"#;
    let srcs = vec![
        ProjectSource { content: proj_one.to_string(), session_modified: vec![Some(0), Some(100), None] },
        ProjectSource { content: proj_two.to_string(), session_modified: vec![Some(5000)] },
        ProjectSource { content: "bad".to_string(), session_modified: vec![] },
    ];
    let ps = get_projects(&srcs);
    assert_eq!(ps.len(), 2);
    assert_eq!(ps[0].id, "h2");
    assert_eq!(ps[0].short_name, "two");
    assert_eq!(ps[1].session_count, 3);
    assert_eq!(ps[1].last_modified.as_deref(), Some("1970-01-01T00:01:40+00:00"));
    assert_eq!(find_last_modified_session(&vec![None]), None);
}

#[test]
fn counts_and_zero_stats() {
    let names = vec!["a.json".to_string(), "b.txt".to_string(), ".json".to_string(), "c.json".to_string()];
    assert_eq!(count_messages(&names), 2);
    let s = get_stats(3, &vec![names.clone(), vec!["x.json".to_string()]]);
    assert_eq!(s.session_count, 3);
    assert_eq!(s.message_count, 3);
    assert_eq!((s.total_input_tokens, s.total_output_tokens, s.total_tokens), (0, 0, 0));
    let z = get_stats(0, &Vec::new());
    assert_eq!((z.session_count, z.message_count, z.total_tokens), (0, 0, 0));
    assert!(z.tokens_by_model.is_empty() && z.daily_tokens.is_empty());
}

#[test]
fn directories_and_names() {
    assert_eq!(get_storage_dir("/home/u"), "/home/u/.local/share/opencode/storage");
    assert_eq!(get_message_dir("/st"), "/st/message");
    assert_eq!(short_name_from_path("/w/app/."), "app");
    assert_eq!(short_name_from_path("/w/.."), "unknown");
    assert_eq!(short_name_from_path(""), "unknown");
    let hashes = scan_project_hashes(&vec!["global".to_string(), "abc".to_string()]);
    assert_eq!(hashes, vec!["abc".to_string()]);
}
