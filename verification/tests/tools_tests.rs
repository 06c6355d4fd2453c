use email_mcp::config::{Account, AppState, Provider};
use email_mcp::json::Json;
use email_mcp::mcp::{route_request, tool_response, Route};
use email_mcp::tools::{
    accounts_overview, auth_started, call_result, error_result, list, message_sent, plan_tool,
    text_result, ICloudOp, MailOp, ToolPlan,
};

fn conv(v: serde_json::Value) -> Json {
    match v {
        serde_json::Value::Null => Json::Null,
        serde_json::Value::Bool(b) => Json::Bool(b),
        serde_json::Value::Number(n) => Json::Number(n.to_string()),
        serde_json::Value::String(s) => Json::Str(s),
        serde_json::Value::Array(a) => Json::Array(a.into_iter().map(conv).collect()),
        serde_json::Value::Object(m) => Json::Object(m.into_iter().map(|(k, v)| (k, conv(v))).collect()),
    }
}

fn back(j: &Json) -> serde_json::Value {
    match j {
        Json::Null => serde_json::Value::Null,
        Json::Bool(b) => serde_json::Value::Bool(*b),
        Json::Number(t) => serde_json::from_str(t).unwrap(),
        Json::Str(s) => serde_json::Value::String(s.clone()),
        Json::Array(a) => serde_json::Value::Array(a.iter().map(back).collect()),
        Json::Object(es) => {
            let mut m = serde_json::Map::new();
            for (k, v) in es {
                m.insert(k.clone(), back(v));
            }
            serde_json::Value::Object(m)
        }
    }
}

fn j(text: &str) -> Json {
    conv(serde_json::from_str(text).unwrap())
}

fn v(text: &str) -> serde_json::Value {
    serde_json::from_str(text).unwrap()
}

fn gmail(id: &str) -> Account {
    Account {
        id: id.into(),
        provider: Provider::Gmail,
        email: Some("g@gmail.com".into()),
        client_id: "c".into(),
        client_secret: None,
        access_token: Some("t".into()),
        refresh_token: None,
        expires_at: None,
        icloud_password: None,
    }
}

fn reply_text(p: &ToolPlan) -> serde_json::Value {
    match p {
        ToolPlan::Reply(r) => back(r),
        _ => panic!("expected a reply"),
    }
}

#[test]
fn tool_list_names() {
    let l = back(&list());
    let names: Vec<&str> = l.as_array().unwrap().iter().map(|t| t["name"].as_str().unwrap()).collect();
    assert_eq!(
        names,
        vec!["list_accounts", "auth_start", "auth_add_icloud", "auth_remove", "list_messages", "get_message", "send_message", "search_messages"]
    );
    assert_eq!(l[1]["inputSchema"]["properties"]["provider"]["enum"], v(r#"["gmail","outlook"]"#));
    assert_eq!(l[4]["inputSchema"]["properties"]["max_results"]["type"], v(r#""integer""#));
    assert_eq!(l[0]["inputSchema"], v(r#"{"type":"object","properties":{}}"#));
    assert_eq!(l[6]["inputSchema"]["required"], v(r#"["account_id","to","subject","body"]"#));
}

#[test]
fn results_shapes() {
    assert_eq!(back(&text_result("hi".into())), v(r#"{"content":[{"type":"text","text":"hi"}]}"#));
    assert_eq!(
        back(&error_result("boom")),
        v(r#"{"isError":true,"content":[{"type":"text","text":"Error: boom"}]}"#)
    );
    assert_eq!(back(&call_result(Err("x".into())))["isError"], v("true"));
    assert_eq!(back(&call_result(Ok(Json::Bool(true)))), v("true"));
    assert_eq!(
        back(&message_sent("id1"))["content"][0]["text"],
        v(r#""Message sent successfully. ID: id1""#)
    );
    assert!(back(&auth_started("https://u"))["content"][0]["text"].as_str().unwrap().contains("\n\nhttps://u\n\n"));
}

#[test]
fn unknown_tool_is_an_error() {
    let mut s = AppState::new(String::new(), vec![]);
    let p = plan_tool(&mut s, "frobnicate", &j("{}"));
    assert_eq!(reply_text(&p)["content"][0]["text"], v(r#""Error: unknown tool: frobnicate""#));
}

#[test]
fn list_accounts_overview() {
    let mut s = AppState::new(String::new(), vec![gmail("work")]);
    match plan_tool(&mut s, "list_accounts", &j("{}")) {
        ToolPlan::ReplyPretty(o) => assert_eq!(
            back(&o),
            v(r#"{"accounts":[{"id":"work","provider":"gmail","email":"g@gmail.com","authenticated":true}],"pending_auth":[]}"#)
        ),
        _ => panic!(),
    }
    assert_eq!(back(&accounts_overview(&s))["accounts"][0]["id"], v(r#""work""#));
}

#[test]
fn auth_start_arguments() {
    let mut s = AppState::new(String::new(), vec![]);
    let p = plan_tool(&mut s, "auth_start", &j(r#"{"provider":"yahoo","account_id":"a","client_id":"c"}"#));
    assert_eq!(reply_text(&p)["content"][0]["text"], v(r#""Error: unknown provider 'yahoo'; use 'gmail' or 'outlook'""#));
    let p = plan_tool(&mut s, "auth_start", &j(r#"{"provider":"gmail","account_id":"","client_id":"c"}"#));
    assert_eq!(reply_text(&p)["content"][0]["text"], v(r#""Error: account_id is required""#));
    let p = plan_tool(&mut s, "auth_start", &j(r#"{"provider":"outlook","account_id":"a"}"#));
    assert_eq!(reply_text(&p)["content"][0]["text"], v(r#""Error: client_id is required""#));
    match plan_tool(&mut s, "auth_start", &j(r#"{"provider":"outlook","account_id":"a","client_id":"c","client_secret":"s"}"#)) {
        ToolPlan::StartAuth { provider, account_id, client_id, client_secret } => {
            assert_eq!(provider, Provider::Outlook);
            assert_eq!(account_id, "a");
            assert_eq!(client_id, "c");
            assert_eq!(client_secret.as_deref(), Some("s"));
        }
        _ => panic!(),
    }
}

#[test]
fn add_icloud_then_listed_and_removed() {
    let mut s = AppState::new(String::new(), vec![]);
    let p = plan_tool(&mut s, "auth_add_icloud", &j(r#"{"account_id":"me","email":"me@icloud.com"}"#));
    assert_eq!(reply_text(&p)["content"][0]["text"], v(r#""Error: app_password is required""#));
    assert!(s.load_accounts().is_empty());
    match plan_tool(&mut s, "auth_add_icloud", &j(r#"{"account_id":"me","email":"me@icloud.com","app_password":"pw"}"#)) {
        ToolPlan::SaveThenReply(t) => assert_eq!(t, "iCloud account 'me' added."),
        _ => panic!(),
    }
    let a = s.get_account("me").unwrap();
    assert_eq!(a.provider, Provider::ICloud);
    assert_eq!(a.icloud_password.as_deref(), Some("pw"));
    assert_eq!(back(&accounts_overview(&s))["accounts"][0]["authenticated"], v("true"));
    match plan_tool(&mut s, "auth_remove", &j(r#"{"account_id":"me"}"#)) {
        ToolPlan::SaveThenReply(t) => assert_eq!(t, "Account 'me' removed."),
        _ => panic!(),
    }
    let p = plan_tool(&mut s, "auth_remove", &j(r#"{"account_id":"me"}"#));
    assert_eq!(reply_text(&p)["content"][0]["text"], v(r#""Account 'me' not found.""#));
}

#[test]
fn mail_tools_plans() {
    let mut s = AppState::new(String::new(), vec![gmail("work")]);
    let p = plan_tool(&mut s, "list_messages", &j(r#"{"account_id":"home"}"#));
    assert_eq!(reply_text(&p)["content"][0]["text"], v(r#""Error: account 'home' not found""#));
    match plan_tool(&mut s, "list_messages", &j(r#"{"account_id":"work","max_results":500}"#)) {
        ToolPlan::Mail { provider: Provider::Gmail, account_id, op: MailOp::List { folder, max } } => {
            assert_eq!(account_id, "work");
            assert_eq!(folder, "inbox");
            assert_eq!(max, 50);
        }
        _ => panic!(),
    }
    match plan_tool(&mut s, "search_messages", &j(r#"{"account_id":"work","query":"q","max_results":-1}"#)) {
        ToolPlan::Mail { op: MailOp::Search { query, max }, .. } => {
            assert_eq!(query, "q");
            assert_eq!(max, 20);
        }
        _ => panic!(),
    }
    match plan_tool(&mut s, "send_message", &j(r#"{"account_id":"work","to":"t","subject":"s","body":"b","cc":"c"}"#)) {
        ToolPlan::Mail { op: MailOp::Send { to, subject, body, cc }, .. } => {
            assert_eq!((to.as_str(), subject.as_str(), body.as_str(), cc.as_deref()), ("t", "s", "b", Some("c")));
        }
        _ => panic!(),
    }
    match plan_tool(&mut s, "get_message", &j(r#"{"account_id":"work","message_id":"m"}"#)) {
        ToolPlan::Mail { op: MailOp::Get { message_id }, .. } => assert_eq!(message_id, "m"),
        _ => panic!(),
    }
}

#[test]
fn icloud_mail_tools_plans() {
    let mut s = AppState::new(String::new(), vec![]);
    plan_tool(&mut s, "auth_add_icloud", &j(r#"{"account_id":"me","email":"e@icloud.com","app_password":"p"}"#));
    match plan_tool(&mut s, "list_messages", &j(r#"{"account_id":"me","folder":"sent","max_results":7}"#)) {
        ToolPlan::ICloudMail { email, password, op: ICloudOp::List { folder, max } } => {
            assert_eq!((email.as_str(), password.as_str()), ("e@icloud.com", "p"));
            assert_eq!(folder, "sent");
            assert_eq!(max, 7);
        }
        _ => panic!(),
    }
    match plan_tool(&mut s, "get_message", &j(r#"{"account_id":"me","message_id":"4711"}"#)) {
        ToolPlan::ICloudMail { op: ICloudOp::Get { uid }, .. } => assert_eq!(uid, 4711),
        _ => panic!(),
    }
    let p = plan_tool(&mut s, "get_message", &j(r#"{"account_id":"me","message_id":"abc"}"#));
    assert_eq!(reply_text(&p)["content"][0]["text"], v(r#""Error: invalid message id 'abc'""#));
    let p = plan_tool(&mut s, "get_message", &j(r#"{"account_id":"me","message_id":"4294967296"}"#));
    assert_eq!(reply_text(&p)["content"][0]["text"], v(r#""Error: invalid message id '4294967296'""#));
    match plan_tool(&mut s, "send_message", &j(r#"{"account_id":"me","to":"t","subject":"s","body":"b"}"#)) {
        ToolPlan::ICloudMail { op: ICloudOp::Send { to, subject, body, cc }, .. } => {
            assert_eq!((to.as_str(), subject.as_str(), body.as_str(), cc), ("t", "s", "b", None));
        }
        _ => panic!(),
    }
    match plan_tool(&mut s, "search_messages", &j(r#"{"account_id":"me","query":"hi"}"#)) {
        ToolPlan::ICloudMail { op: ICloudOp::Search { query, max }, .. } => {
            assert_eq!(query, "hi");
            assert_eq!(max, 20);
        }
        _ => panic!(),
    }
}

#[test]
fn icloud_account_without_password_is_not_authenticated() {
    let mut a = gmail("box");
    a.provider = Provider::ICloud;
    a.icloud_password = None;
    let mut s = AppState::new(String::new(), vec![a]);
    let p = plan_tool(&mut s, "list_messages", &j(r#"{"account_id":"box"}"#));
    assert_eq!(reply_text(&p)["content"][0]["text"], v(r#""Error: account 'box' is not authenticated""#));
}

#[test]
fn every_listed_tool_is_dispatched() {
    let tools = back(&email_mcp::tools::list());
    for t in tools.as_array().unwrap() {
        let name = t["name"].as_str().unwrap();
        let props = t["inputSchema"]["properties"].as_object().unwrap();
        if let Some(req) = t["inputSchema"]["required"].as_array() {
            for k in req {
                assert!(props.contains_key(k.as_str().unwrap()));
            }
        }
        let mut s = AppState::new(String::new(), vec![]);
        let p = plan_tool(&mut s, name, &j("{}"));
        if let ToolPlan::Reply(r) = &p {
            let text = back(r)["content"][0]["text"].as_str().unwrap_or("").to_string();
            assert!(!text.contains("unknown tool"));
        }
    }
}

#[test]
fn routing_requests() {
    match route_request(&j(r#"{"jsonrpc":"2.0","id":1,"method":"initialize"}"#)) {
        Route::Respond(r) => assert_eq!(
            back(&r),
            v(r#"{"jsonrpc":"2.0","id":1,"result":{"protocolVersion":"2024-11-05","capabilities":{"tools":{}},"serverInfo":{"name":"email-mcp","version":"0.1.0"}}}"#)
        ),
        _ => panic!(),
    }
    assert!(matches!(route_request(&j(r#"{"method":"notifications/initialized"}"#)), Route::Ignore));
    assert!(matches!(route_request(&j(r#"{"id":3}"#)), Route::Ignore));
    assert!(matches!(route_request(&j(r#"[1,2]"#)), Route::Ignore));
    match route_request(&j(r#"{"id":"a","method":"ping"}"#)) {
        Route::Respond(r) => assert_eq!(back(&r), v(r#"{"jsonrpc":"2.0","id":"a","result":{}}"#)),
        _ => panic!(),
    }
    match route_request(&j(r#"{"method":"nope"}"#)) {
        Route::Respond(r) => assert_eq!(
            back(&r),
            v(r#"{"jsonrpc":"2.0","id":null,"error":{"code":-32601,"message":"method not found"}}"#)
        ),
        _ => panic!(),
    }
    match route_request(&j(r#"{"id":2,"method":"tools/list"}"#)) {
        Route::Respond(r) => {
            let mut expected = serde_json::Map::new();
            expected.insert("tools".to_string(), back(&list()));
            let mut whole = serde_json::Map::new();
            whole.insert("jsonrpc".to_string(), v(r#""2.0""#));
            whole.insert("id".to_string(), v("2"));
            whole.insert("result".to_string(), serde_json::Value::Object(expected));
            assert_eq!(back(&r), serde_json::Value::Object(whole));
            assert_eq!(back(&r)["result"]["tools"].as_array().unwrap().len(), 8);
        }
        _ => panic!(),
    }
    match route_request(&j(r#"{"id":5,"method":"tools/call","params":{"name":"ping_tool"}}"#)) {
        Route::CallTool { id, name, args } => {
            assert_eq!(back(&id), v("5"));
            assert_eq!(name, "ping_tool");
            assert_eq!(back(&args), v("{}"));
        }
        _ => panic!(),
    }
    match route_request(&j(r#"{"id":5,"method":"tools/call","params":{"name":"x","arguments":null}}"#)) {
        Route::CallTool { args, .. } => assert_eq!(back(&args), v("null")),
        _ => panic!(),
    }
    assert!(matches!(route_request(&j(r#"{"id":5,"method":"tools/call"}"#)), Route::Ignore));
    assert!(matches!(route_request(&j(r#"{"id":5,"method":"tools/call","params":{"name":1}}"#)), Route::Ignore));
    assert_eq!(
        back(&tool_response(Json::Number("7".into()), Json::Null)),
        v(r#"{"jsonrpc":"2.0","id":7,"result":null}"#)
    );
}
