use session_viewer::claude::messages::parse_session_messages as claude_page;
use session_viewer::pagination::paginate;
use session_viewer::shared_models::{DisplayContentBlock, DisplayMessage};

fn msg(n: usize) -> DisplayMessage {
    DisplayMessage {
        uuid: Some(format!("m{}", n)),
        role: "user".to_string(),
        timestamp: None,
        content: vec![DisplayContentBlock::Text { text: format!("text {}", n) }],
    }
}

fn msgs(n: usize) -> Vec<DisplayMessage> {
    (0..n).map(msg).collect()
}

#[test]
fn page_sizes_and_has_more_hold_for_many_pairs() {
    for total in 0..8usize {
        for page in 0..6usize {
            for page_size in 0..5usize {
                let r = paginate(msgs(total), page, page_size);
                assert!(r.messages.len() <= page_size);
                assert_eq!(r.has_more, page * page_size + r.messages.len() < total);
                assert_eq!(r.total, total);
            }
        }
    }
}

#[test]
fn middle_page_holds_the_right_slice() {
    let r = paginate(msgs(7), 1, 3);
    assert_eq!(r.total, 7);
    assert_eq!(r.page, 1);
    assert_eq!(r.page_size, 3);
    assert!(r.has_more);
    let ids: Vec<String> = r.messages.iter().map(|m| m.uuid.clone().unwrap()).collect();
    assert_eq!(ids, vec!["m3", "m4", "m5"]);
}

#[test]
fn last_partial_page_has_no_more() {
    let r = paginate(msgs(7), 2, 3);
    assert_eq!(r.messages.len(), 1);
    assert_eq!(r.messages[0].uuid.as_deref(), Some("m6"));
    assert!(!r.has_more);
}

#[test]
fn page_beyond_end_is_empty() {
    let r = paginate(msgs(4), 5, 10);
    assert!(r.messages.is_empty());
    assert!(!r.has_more);
    assert_eq!(r.total, 4);
}

#[test]
fn huge_page_numbers_do_not_overflow() {
    let r = paginate(msgs(3), usize::MAX, usize::MAX);
    assert!(r.messages.is_empty());
    assert!(!r.has_more);
}

#[test]
fn pagination_twice_gives_the_same_page() {
    let a = paginate(msgs(9), 1, 4);
    let b = paginate(msgs(9), 1, 4);
    assert_eq!(a, b);
}

#[test]
fn two_line_session_end_to_end() {
    let text = "{\"type\":\"user\",\"message\":{\"role\":\"user\",\"content\":\"hello\"}}\n{\"type\":\"assistant\",\"message\":{\"role\":\"assistant\",\"content\":[{\"type\":\"text\",\"text\":\"hi there\"}]}}\n";
    let r = claude_page(text, 0, 10);
    assert_eq!(r.total, 2);
    assert!(!r.has_more);
    assert_eq!(r.messages.len(), 2);
    assert_eq!(r.messages[0].role, "user");
    assert_eq!(r.messages[0].content, vec![DisplayContentBlock::Text { text: "hello".to_string() }]);
    assert_eq!(r.messages[1].role, "assistant");
    assert_eq!(r.messages[1].content, vec![DisplayContentBlock::Text { text: "hi there".to_string() }]);
}
