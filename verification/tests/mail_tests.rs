use email_mcp::json::Json;
use email_mcp::{gmail, outlook};

fn conv(v: serde_json::Value) -> Json {
    match v {
        serde_json::Value::Null => Json::Null,
        serde_json::Value::Bool(b) => Json::Bool(b),
        serde_json::Value::Number(n) => Json::Number(n.to_string()),
        serde_json::Value::String(s) => Json::Str(s),
        serde_json::Value::Array(a) => Json::Array(a.into_iter().map(conv).collect()),
        serde_json::Value::Object(m) => Json::Object(m.into_iter().map(|(k, v)| (k, conv(v))).collect()),
    }
}

fn back(j: &Json) -> serde_json::Value {
    match j {
        Json::Null => serde_json::Value::Null,
        Json::Bool(b) => serde_json::Value::Bool(*b),
        Json::Number(t) => serde_json::from_str(t).unwrap(),
        Json::Str(s) => serde_json::Value::String(s.clone()),
        Json::Array(a) => serde_json::Value::Array(a.iter().map(back).collect()),
        Json::Object(es) => {
            let mut m = serde_json::Map::new();
            for (k, v) in es {
                m.insert(k.clone(), back(v));
            }
            serde_json::Value::Object(m)
        }
    }
}

fn j(text: &str) -> Json {
    conv(serde_json::from_str(text).unwrap())
}

fn v(text: &str) -> serde_json::Value {
    serde_json::from_str(text).unwrap()
}

#[test]
fn gmail_labels_and_urls() {
    assert_eq!(gmail::gmail_label(""), "INBOX");
    assert_eq!(gmail::gmail_label("inbox"), "INBOX");
    assert_eq!(gmail::gmail_label("trash"), "TRASH");
    assert_eq!(gmail::gmail_label("drafts"), "DRAFT");
    assert_eq!(gmail::gmail_label("sent"), "SENT");
    assert_eq!(gmail::gmail_label("Custom"), "Custom");
    assert_eq!(
        gmail::list_url("sent", 20),
        "https://gmail.googleapis.com/gmail/v1/users/me/messages?maxResults=20&labelIds=SENT"
    );
    assert_eq!(
        gmail::search_url("from:bob has:attachment", 5),
        "https://gmail.googleapis.com/gmail/v1/users/me/messages?maxResults=5&q=from%3Abob%20has%3Aattachment"
    );
    assert_eq!(
        gmail::metadata_url("abc"),
        "https://gmail.googleapis.com/gmail/v1/users/me/messages/abc?format=metadata&metadataHeaders=From&metadataHeaders=Subject&metadataHeaders=Date"
    );
    assert_eq!(gmail::full_url("x1"), "https://gmail.googleapis.com/gmail/v1/users/me/messages/x1?format=full");
}

#[test]
fn gmail_ids_skip_entries_without_id() {
    let list = j(r#"{"messages":[{"id":"a"},{"threadId":"t"},{"id":7},{"id":"b"},{"id":"c"}],"resultSizeEstimate":3}"#);
    assert_eq!(gmail::message_ids(&list, 10), vec!["a", "b", "c"]);
    assert_eq!(gmail::message_ids(&list, 2), vec!["a", "b"]);
    assert!(gmail::message_ids(&j("{}"), 10).is_empty());
}

#[test]
fn gmail_header_is_case_insensitive() {
    let msg = j(r#"{"payload":{"headers":[{"name":"subject","value":"Hi"},{"name":"Subject","value":"Second"},{"name":"FROM","value":"a@b"}]}}"#);
    assert_eq!(gmail::header(&msg, "Subject"), "Hi");
    assert_eq!(gmail::header(&msg, "From"), "a@b");
    assert_eq!(gmail::header(&msg, "Date"), "");
    assert_eq!(gmail::header(&j("{}"), "Date"), "");
}

#[test]
fn gmail_summary() {
    let msg = j(r#"{"id":"m1","threadId":"t1","snippet":"hello","labelIds":["INBOX","UNREAD"],"payload":{"headers":[{"name":"Subject","value":"S"},{"name":"From","value":"F"},{"name":"Date","value":"D"}]}}"#);
    assert_eq!(
        back(&gmail::summarize(&msg)),
        v(r#"{"id":"m1","thread_id":"t1","subject":"S","from":"F","date":"D","snippet":"hello","unread":true}"#)
    );
    let read = j(r#"{"id":"m2","labelIds":["INBOX"]}"#);
    assert_eq!(
        back(&gmail::summarize(&read)),
        v(r#"{"id":"m2","thread_id":null,"subject":"","from":"","date":"","snippet":null,"unread":false}"#)
    );
    let list = j(r#"{"resultSizeEstimate":42}"#);
    assert_eq!(
        back(&gmail::list_result(vec![gmail::summarize(&read)], &list))["total_estimate"],
        v("42")
    );
}

#[test]
fn gmail_body_extraction() {
    // "Hello" in URL-safe base64 without padding
    let direct = j(r#"{"body":{"data":"SGVsbG8"}}"#);
    assert_eq!(gmail::extract_body(&direct), "Hello");
    let parts = j(r#"{"body":{"data":""},"parts":[{"mimeType":"text/html","body":{"data":"PGI-aGk8L2I-"}},{"mimeType":"text/plain","body":{"data":"cGxhaW4"}}]}"#);
    assert_eq!(gmail::extract_body(&parts), "plain");
    let html_only = j(r#"{"parts":[{"mimeType":"text/html","body":{"data":"PGI-aGk8L2I-"}}]}"#);
    assert_eq!(gmail::extract_body(&html_only), "<b>hi</b>");
    let nested = j(r#"{"parts":[{"mimeType":"multipart/alternative","parts":[{"mimeType":"text/plain","body":{"data":"bmVzdGVk"}}]}]}"#);
    assert_eq!(gmail::extract_body(&nested), "nested");
    let bad = j(r#"{"body":{"data":"!!!"},"parts":[{"mimeType":"text/plain","body":{"data":"$$"}}]}"#);
    assert_eq!(gmail::extract_body(&bad), "");
    assert_eq!(gmail::extract_body(&Json::Null), "");
    let padded = j(r#"{"body":{"data":"SGk="},"parts":[{"mimeType":"text/plain","body":{"data":"SGVsbG9"}}]}"#);
    assert_eq!(gmail::extract_body(&padded), "");
    let canonical = j(r#"{"body":{"data":"SGk="},"parts":[{"mimeType":"text/plain","body":{"data":"SGVsbG8"}}]}"#);
    assert_eq!(gmail::extract_body(&canonical), "Hello");
}

#[test]
fn gmail_detail_has_body_and_headers() {
    let msg = j(r#"{"id":"1","threadId":"2","snippet":"s","payload":{"headers":[{"name":"To","value":"x@y"},{"name":"Cc","value":"c@y"}],"body":{"data":"SGk"}}}"#);
    let d = back(&gmail::message_detail(&msg));
    assert_eq!(d["body"], v(r#""Hi""#));
    assert_eq!(d["to"], v(r#""x@y""#));
    assert_eq!(d["cc"], v(r#""c@y""#));
    assert_eq!(d["unread"], v("false"));
}

#[test]
fn gmail_raw_message_and_payload() {
    let raw = gmail::raw_message("a@b", "Hi", "Body", Some("c@d"));
    assert_eq!(raw, "To: a@b\r\nSubject: Hi\r\nContent-Type: text/plain; charset=utf-8\r\nCc: c@d\r\n\r\nBody");
    let raw2 = gmail::raw_message("a@b", "Hi", "Body", None);
    assert_eq!(raw2, "To: a@b\r\nSubject: Hi\r\nContent-Type: text/plain; charset=utf-8\r\n\r\nBody");
    let p = back(&gmail::send_payload("Hello"));
    assert_eq!(p, v(r#"{"raw":"SGVsbG8"}"#));
    assert_eq!(back(&gmail::send_payload("???")), v(r#"{"raw":"Pz8_"}"#));
    assert_eq!(back(&gmail::send_payload("~~~")), v(r#"{"raw":"fn5-"}"#));
}

#[test]
fn gmail_send_outcome() {
    assert_eq!(gmail::send_outcome(&j(r#"{"id":"sent1"}"#)), Ok("sent1".to_string()));
    assert_eq!(gmail::send_outcome(&j(r#"{}"#)), Ok("".to_string()));
    assert_eq!(gmail::send_outcome(&j(r#"{"error":{"message":"bad"}}"#)), Err("bad".to_string()));
    assert_eq!(gmail::send_outcome(&j(r#"{"error":{}}"#)), Err("send failed".to_string()));
    assert_eq!(gmail::send_outcome(&j(r#"{"error":"x","id":"i"}"#)), Ok("i".to_string()));
}

#[test]
fn outlook_folders_and_urls() {
    assert_eq!(outlook::outlook_folder("spam"), "JunkEmail");
    assert_eq!(outlook::outlook_folder(""), "Inbox");
    assert_eq!(outlook::outlook_folder("Archive"), "Archive");
    assert_eq!(
        outlook::list_url("drafts", 3),
        "https://graph.microsoft.com/v1.0/me/mailFolders/Drafts/messages?$top=3&$select=id,subject,from,receivedDateTime,isRead,bodyPreview&$orderby=receivedDateTime desc"
    );
    assert_eq!(
        outlook::search_url("say \"hi\"", 4),
        "https://graph.microsoft.com/v1.0/me/messages?$search=\"say \\\"hi\\\"\"&$top=4&$select=id,subject,from,receivedDateTime,isRead,bodyPreview"
    );
    assert_eq!(outlook::message_url("AB"), "https://graph.microsoft.com/v1.0/me/messages/AB");
    assert_eq!(
        outlook::search_url("a\\b\n\t\u{1}\u{8}\u{c}\r/é", 1),
        "https://graph.microsoft.com/v1.0/me/messages?$search=\"a\\\\b\\n\\t\\u0001\\b\\f\\r/é\"&$top=1&$select=id,subject,from,receivedDateTime,isRead,bodyPreview"
    );
}

#[test]
fn outlook_api_errors() {
    assert_eq!(outlook::api_error(&j(r#"{"error":{"message":"nope"}}"#), "API error"), Some("nope".to_string()));
    assert_eq!(outlook::api_error(&j(r#"{"error":{"code":1}}"#), "API error"), Some("API error".to_string()));
    assert_eq!(outlook::api_error(&j(r#"{"value":[]}"#), "API error"), None);
}

#[test]
fn outlook_summaries_and_detail() {
    let resp = j(r#"{"value":[{"id":"1","subject":"S","from":{"emailAddress":{"address":"f@x"}},"receivedDateTime":"D","bodyPreview":"P","isRead":false},{"id":"2"}]}"#);
    assert_eq!(
        back(&outlook::messages_result(&resp)),
        v(r#"{"messages":[{"id":"1","subject":"S","from":"f@x","date":"D","snippet":"P","unread":true},{"id":"2","subject":null,"from":null,"date":null,"snippet":null,"unread":false}]}"#)
    );
    let msg = j(r#"{"id":"9","subject":"S","toRecipients":[{"emailAddress":{"address":"a@x"}},{"emailAddress":{}},{"emailAddress":{"address":"b@x"}}],"body":{"content":"C","contentType":"html"},"isRead":true}"#);
    assert_eq!(
        back(&outlook::message_detail(&msg)),
        v(r#"{"id":"9","subject":"S","from":null,"to":["a@x","b@x"],"date":null,"body":"C","body_type":"html","is_read":true}"#)
    );
}

#[test]
fn outlook_send_payload() {
    assert_eq!(
        back(&outlook::send_payload("t@x", "Sub", "Body", Some("c@x"))),
        v(r#"{"message":{"subject":"Sub","body":{"contentType":"Text","content":"Body"},"toRecipients":[{"emailAddress":{"address":"t@x"}}],"ccRecipients":[{"emailAddress":{"address":"c@x"}}]}}"#)
    );
    assert_eq!(
        back(&outlook::send_payload("t@x", "Sub", "Body", None))["message"]["ccRecipients"],
        v("[]")
    );
}
