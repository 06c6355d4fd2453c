use email_mcp::headers::parse_headers;
use email_mcp::icloud::{
    fetch_window, find_body_start, imap_folder, list_result, message_view, newest_uids, search_result,
    sequence_range, split_headers_body, text_search, uid_set, FetchedMessage, ICloudClient,
};
use email_mcp::json::Json;

fn get(m: &email_mcp::headers::HeaderMap, k: &str) -> Option<String> {
    m.get(k)
}

fn field(j: &Json, key: &str) -> String {
    match j.get(key) {
        Some(Json::Str(s)) => s.clone(),
        Some(Json::Number(n)) => n.clone(),
        Some(Json::Bool(b)) => b.to_string(),
        _ => "<none>".to_string(),
    }
}

#[test]
fn client_keeps_credentials() {
    let c = ICloudClient::new("me@icloud.com", "abcd-efgh");
    assert_eq!(c.email, "me@icloud.com");
    assert_eq!(c.password, "abcd-efgh");
}

#[test]
fn folders() {
    assert_eq!(imap_folder(""), "INBOX");
    assert_eq!(imap_folder("sent"), "Sent Messages");
    assert_eq!(imap_folder("trash"), "Deleted Messages");
    assert_eq!(imap_folder("spam"), "Junk");
    assert_eq!(imap_folder("drafts"), "Drafts");
    assert_eq!(imap_folder("Work"), "Work");
}

#[test]
fn body_start_positions() {
    assert_eq!(find_body_start(b"A: 1\r\nB: 2\r\n\r\nbody"), Some(14));
    assert_eq!(find_body_start(b"A: 1\nB: 2\n\nbody"), Some(11));
    assert_eq!(find_body_start(b"A: 1\r\n"), None);
    assert_eq!(find_body_start(b""), None);
    assert_eq!(find_body_start(b"\n\n"), Some(2));
    // a CR LF is skipped as one line end, so the LF LF that overlaps it is not seen
    assert_eq!(find_body_start(b"A\r\n\nB"), None);
}

#[test]
fn split_message() {
    let (h, b) = split_headers_body(b"Subject: x\r\n\r\nhello");
    assert_eq!(h, b"Subject: x\r\n\r\n");
    assert_eq!(b, b"hello");
    let (h2, b2) = split_headers_body(b"no blank line");
    assert_eq!(h2, b"no blank line");
    assert!(b2.is_empty());
}

#[test]
fn header_parsing() {
    let m = parse_headers(b"Subject: Hello\r\n  world\r\nFrom:  a@b \r\nX-Empty:\r\nnot a header\r\nDate: Mon\r\nSUBJECT: later\r\n");
    assert_eq!(get(&m, "subject"), Some("later".to_string()));
    assert_eq!(get(&m, "from"), Some("a@b".to_string()));
    assert_eq!(get(&m, "x-empty"), Some("".to_string()));
    assert_eq!(get(&m, "date"), Some("Mon".to_string()));
    assert_eq!(m.len(), 4);
    let folded = parse_headers(b"Subject: Hello\r\n\tworld\r\n");
    assert_eq!(get(&folded, "subject"), Some("Hello world".to_string()));
    let lossy = parse_headers(b"Subject: caf\xe9\r\n");
    assert_eq!(get(&lossy, "subject"), Some("caf\u{fffd}".to_string()));
    assert_eq!(parse_headers(b"").len(), 0);
}

#[test]
fn fetch_windows() {
    assert_eq!(fetch_window(100, 20), Some((81, 100)));
    assert_eq!(fetch_window(5, 20), Some((1, 5)));
    assert_eq!(fetch_window(0, 20), None);
    assert_eq!(fetch_window(10, 0), None);
    assert_eq!(sequence_range(81, 100), "81:100");
}

#[test]
fn newest_uids_are_highest_first() {
    assert_eq!(newest_uids(&vec![5, 99, 3, 42, 7], 3), vec![99, 42, 7]);
    assert_eq!(newest_uids(&vec![5, 1], 10), vec![5, 1]);
    assert_eq!(newest_uids(&vec![], 10), Vec::<u32>::new());
    assert_eq!(newest_uids(&vec![8, 9], 0), Vec::<u32>::new());
    assert_eq!(uid_set(&vec![99, 42, 7]), "99,42,7");
    assert_eq!(uid_set(&vec![]), "");
}

#[test]
fn search_query_is_quoted() {
    assert_eq!(text_search("invoice"), "TEXT \"invoice\"");
    assert_eq!(text_search("say \"x\""), "TEXT \"say \\\"x\\\"\"");
}

#[test]
fn listing_is_newest_first() {
    let fetched = vec![
        FetchedMessage { uid: Some(1), header: Some(b"Subject: old\r\nFrom: a\r\n\r\n".to_vec()), seen: true },
        FetchedMessage { uid: Some(2), header: Some(b"Subject: new\r\nDate: d\r\n\r\n".to_vec()), seen: false },
        FetchedMessage { uid: None, header: None, seen: false },
    ];
    let r = list_result(&fetched);
    let items = match r.get("messages") {
        Some(Json::Array(a)) => a,
        _ => panic!(),
    };
    assert_eq!(items.len(), 3);
    assert_eq!(field(&items[0], "id"), "0");
    assert_eq!(field(&items[0], "subject"), "");
    assert_eq!(field(&items[1], "subject"), "new");
    assert_eq!(field(&items[1], "unread"), "true");
    assert_eq!(field(&items[2], "from"), "a");
    assert_eq!(field(&items[2], "unread"), "false");
    let s = search_result(&fetched);
    let items = match s.get("messages") {
        Some(Json::Array(a)) => a,
        _ => panic!(),
    };
    assert_eq!(field(&items[0], "subject"), "old");
    assert_eq!(field(&items[0], "unread"), "<none>");
}

#[test]
fn message_view_parts() {
    let r = message_view(12, b"Subject: Hi\r\nTo: x@y\r\n\r\nbody text");
    assert_eq!(field(&r, "id"), "12");
    assert_eq!(field(&r, "subject"), "Hi");
    assert_eq!(field(&r, "to"), "x@y");
    assert_eq!(field(&r, "body"), "body text");
}

#[test]
fn icloud_message_is_built_from_valid_addresses() {
    let m = email_mcp::icloud::icloud_message("me@icloud.com", "You <you@example.com>", "Hi", "Body", Some("c@example.com"))
        .unwrap();
    let text = String::from_utf8(m.formatted()).unwrap();
    assert!(text.contains("From: me@icloud.com"));
    assert!(text.contains("To: \"You\" <you@example.com>") || text.contains("To: You <you@example.com>"));
    assert!(text.contains("Cc: c@example.com"));
    assert!(text.contains("Subject: Hi"));
    assert!(text.contains("Content-Type: text/plain"));
    assert!(text.ends_with("Body"));
    let m = email_mcp::icloud::icloud_message("me@icloud.com", "you@example.com", "Hi", "Body", None).unwrap();
    assert!(!String::from_utf8(m.formatted()).unwrap().contains("Cc:"));
}

#[test]
fn icloud_message_refuses_invalid_addresses() {
    let e = email_mcp::icloud::icloud_message("me@icloud.com", "not an address", "Hi", "Body", None).unwrap_err();
    assert_eq!(e, "Invalid input");
    let e = email_mcp::icloud::icloud_message("bad", "you@example.com", "Hi", "Body", None).unwrap_err();
    assert_eq!(e, "Invalid input");
    let e = email_mcp::icloud::icloud_message("me@icloud.com", "you@example.com", "Hi", "Body", Some("nope")).unwrap_err();
    assert_eq!(e, "Invalid input");
}

#[test]
fn body_starts_after_first_blank_line() {
    assert_eq!(find_body_start(b"A: b\r\nC: d\r\n\r\nbody\r\n\r\nmore"), Some(14));
    assert_eq!(find_body_start(b"A: b\nC: d\n\nbody\n\nmore"), Some(11));
    assert_eq!(find_body_start(b"A: b\r\nC: d\r\n"), None);
    // A CRLF line followed by a bare LF is not taken as a blank line.
    assert_eq!(find_body_start(b"A: b\r\n\nbody"), None);
}
