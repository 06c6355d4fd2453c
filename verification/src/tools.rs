use vstd::prelude::*;

use crate::config::{Account, AppState, PendingAuth, Provider, lookup, provider_name, upserted, without_id};
use crate::json::{
    Json, JsonV, array, lookup_member, member, object, push_item, push_member, str_at, str_of,
    str_or, text, u64_of, view_entries, view_items, jstr,
};
use crate::text::{cat, cat3, copy_str, parse_decimal, parse_u64, str_eq};

verus! {

// ---------------------------------------------------------------------------
// Tool results
// ---------------------------------------------------------------------------

/// A successful tool result that carries the text `t`.
pub open spec fn text_result_of(t: Seq<char>) -> JsonV {
    JsonV::Object(
        seq![
            ("content"@, JsonV::Array(
                seq![JsonV::Object(seq![("type"@, jstr("text"@)), ("text"@, jstr(t))])],
            )),
        ],
    )
}

/// A failed tool result that carries the message `m`.
pub open spec fn error_result_of(m: Seq<char>) -> JsonV {
    JsonV::Object(
        seq![
            ("isError"@, JsonV::Bool(true)),
            ("content"@, JsonV::Array(
                seq![
                    JsonV::Object(
                        seq![("type"@, jstr("text"@)), ("text"@, jstr("Error: "@ + m))],
                    ),
                ],
            )),
        ],
    )
}

fn text_content(t: String) -> (r: Json)
    ensures
        r@ == JsonV::Array(
            seq![JsonV::Object(seq![("type"@, jstr("text"@)), ("text"@, jstr(t@))])],
        ),
{
    let mut c: Vec<(String, Json)> = Vec::new();
    push_member(&mut c, "type", text("text"));
    let ghost tv = t@;
    push_member(&mut c, "text", Json::Str(t));
    assert(view_entries(c@) =~= seq![("type"@, jstr("text"@)), ("text"@, jstr(tv))]);
    let mut items: Vec<Json> = Vec::new();
    push_item(&mut items, object(c));
    assert(view_items(items@) =~= seq![
        JsonV::Object(seq![("type"@, jstr("text"@)), ("text"@, jstr(tv))]),
    ]);
    array(items)
}

/// A successful tool result that carries the text `t`.
pub fn text_result(t: String) -> (r: Json)
    ensures
        r@ == text_result_of(t@),
{
    let ghost tv = t@;
    let mut es: Vec<(String, Json)> = Vec::new();
    push_member(&mut es, "content", text_content(t));
    assert(view_entries(es@) =~= text_result_of(tv)->Object_0);
    object(es)
}

/// A failed tool result that carries the message `m`.
pub fn error_result(m: &str) -> (r: Json)
    ensures
        r@ == error_result_of(m@),
{
    let mut es: Vec<(String, Json)> = Vec::new();
    push_member(&mut es, "isError", Json::Bool(true));
    push_member(&mut es, "content", text_content(cat("Error: ", m)));
    assert(view_entries(es@) =~= error_result_of(m@)->Object_0);
    object(es)
}

/// The answer to `auth_start`: the URL to open.
pub open spec fn auth_url_text(url: Seq<char>) -> Seq<char> {
    "Open this URL in your browser to authenticate:\n\n"@ + url
        + "\n\nAuth will complete automatically when you accept. Use list_accounts to verify."@
}

/// The answer to `auth_start`.
pub fn auth_started(url: &str) -> (r: Json)
    ensures
        r@ == text_result_of(auth_url_text(url@)),
{
    text_result(
        cat3(
            "Open this URL in your browser to authenticate:\n\n",
            url,
            "\n\nAuth will complete automatically when you accept. Use list_accounts to verify.",
        ),
    )
}

/// The answer to `send_message`.
pub fn message_sent(id: &str) -> (r: Json)
    ensures
        r@ == text_result_of("Message sent successfully. ID: "@ + id@),
{
    text_result(cat("Message sent successfully. ID: ", id))
}

/// The answer to `send_message` when the provider gives the message no id
/// (iCloud, which sends by SMTP).
pub fn message_sent_without_id() -> (r: Json)
    ensures
        r@ == text_result_of("Message sent successfully."@),
{
    text_result(copy_str("Message sent successfully."))
}

// ---------------------------------------------------------------------------
// The tool list
// ---------------------------------------------------------------------------

/// A property of the given type, with an optional description.
pub open spec fn prop_of(ty: Seq<char>, desc: Option<Seq<char>>) -> JsonV {
    match desc {
        Some(d) => JsonV::Object(seq![("type"@, jstr(ty)), ("description"@, jstr(d))]),
        None => JsonV::Object(seq![("type"@, jstr(ty))]),
    }
}

fn prop(ty: &str, desc: Option<&str>) -> (r: Json)
    ensures
        r@ == prop_of(
            ty@,
            match desc {
                Some(d) => Some(d@),
                None => None,
            },
        ),
{
    let mut es: Vec<(String, Json)> = Vec::new();
    push_member(&mut es, "type", text(ty));
    match desc {
        Some(d) => {
            push_member(&mut es, "description", text(d));
            assert(view_entries(es@) =~= seq![("type"@, jstr(ty@)), ("description"@, jstr(d@))]);
        },
        None => {
            assert(view_entries(es@) =~= seq![("type"@, jstr(ty@))]);
        },
    }
    object(es)
}

/// The entry of one tool in the list.
pub open spec fn tool_of(
    name: Seq<char>,
    desc: Seq<char>,
    props: Seq<(Seq<char>, JsonV)>,
    required: Option<Seq<JsonV>>,
) -> JsonV {
    let schema = match required {
        Some(r) => JsonV::Object(
            seq![
                ("type"@, jstr("object"@)),
                ("properties"@, JsonV::Object(props)),
                ("required"@, JsonV::Array(r)),
            ],
        ),
        None => JsonV::Object(
            seq![("type"@, jstr("object"@)), ("properties"@, JsonV::Object(props))],
        ),
    };
    JsonV::Object(
        seq![("name"@, jstr(name)), ("description"@, jstr(desc)), ("inputSchema"@, schema)],
    )
}

fn tool(name: &str, desc: &str, props: Vec<(String, Json)>, required: Option<Vec<Json>>) -> (r: Json)
    ensures
        r@ == tool_of(
            name@,
            desc@,
            view_entries(props@),
            match required {
                Some(v) => Some(view_items(v@)),
                None => None,
            },
        ),
{
    let ghost pv = view_entries(props@);
    let ghost rv = match &required {
        Some(v) => Some(view_items(v@)),
        None => None,
    };
    let mut schema: Vec<(String, Json)> = Vec::new();
    push_member(&mut schema, "type", text("object"));
    push_member(&mut schema, "properties", object(props));
    match required {
        Some(v) => {
            push_member(&mut schema, "required", array(v));
        },
        None => {},
    }
    let ghost sv = view_entries(schema@);
    assert(JsonV::Object(sv) == tool_of(name@, desc@, pv, rv)->Object_0[2].1) by {
        assert(sv =~= tool_of(name@, desc@, pv, rv)->Object_0[2].1->Object_0);
    }
    let mut es: Vec<(String, Json)> = Vec::new();
    push_member(&mut es, "name", text(name));
    push_member(&mut es, "description", text(desc));
    push_member(&mut es, "inputSchema", object(schema));
    assert(view_entries(es@) =~= tool_of(name@, desc@, pv, rv)->Object_0);
    object(es)
}

fn strings(a: &str, b: Option<&str>, c: Option<&str>, d: Option<&str>) -> (r: Vec<Json>)
    ensures
        view_items(r@) == seq![jstr(a@)] + (match b {
            Some(x) => seq![jstr(x@)],
            None => Seq::empty(),
        }) + (match c {
            Some(x) => seq![jstr(x@)],
            None => Seq::empty(),
        }) + (match d {
            Some(x) => seq![jstr(x@)],
            None => Seq::empty(),
        }),
{
    let mut r: Vec<Json> = Vec::new();
    push_item(&mut r, text(a));
    let ghost s1 = view_items(r@);
    match b {
        Some(x) => {
            push_item(&mut r, text(x));
        },
        None => {},
    }
    let ghost s2 = view_items(r@);
    match c {
        Some(x) => {
            push_item(&mut r, text(x));
        },
        None => {},
    }
    let ghost s3 = view_items(r@);
    match d {
        Some(x) => {
            push_item(&mut r, text(x));
        },
        None => {},
    }
    proof {
        let sb = match b {
            Some(x) => seq![jstr(x@)],
            None => Seq::<JsonV>::empty(),
        };
        let sc = match c {
            Some(x) => seq![jstr(x@)],
            None => Seq::<JsonV>::empty(),
        };
        let sd = match d {
            Some(x) => seq![jstr(x@)],
            None => Seq::<JsonV>::empty(),
        };
        assert(s1 =~= seq![jstr(a@)]);
        assert(s2 =~= s1 + sb);
        assert(s3 =~= s2 + sc);
        assert(view_items(r@) =~= s3 + sd);
    }
    r
}

/// The names of the tools, in the order they are listed.
pub open spec fn tool_names() -> Seq<Seq<char>> {
    seq![
        "list_accounts"@,
        "auth_start"@,
        "auth_add_icloud"@,
        "auth_remove"@,
        "list_messages"@,
        "get_message"@,
        "send_message"@,
        "search_messages"@,
    ]
}

/// The names of the arguments a tool requires, or `None` for a tool without
/// a `required` list.
pub open spec fn required_of(i: int) -> Option<Seq<JsonV>> {
    if i == 0 {
        None
    } else if i == 1 {
        Some(seq![jstr("provider"@), jstr("account_id"@), jstr("client_id"@)])
    } else if i == 2 {
        Some(seq![jstr("account_id"@), jstr("email"@), jstr("app_password"@)])
    } else if i == 3 {
        Some(seq![jstr("account_id"@)])
    } else if i == 4 {
        Some(seq![jstr("account_id"@)])
    } else if i == 5 {
        Some(seq![jstr("account_id"@), jstr("message_id"@)])
    } else if i == 6 {
        Some(seq![jstr("account_id"@), jstr("to"@), jstr("subject"@), jstr("body"@)])
    } else {
        Some(seq![jstr("account_id"@), jstr("query"@)])
    }
}

/// Each listed tool has its name and its list of required arguments.
pub open spec fn is_tool_list(v: JsonV) -> bool {
    &&& v is Array
    &&& v->Array_0.len() == 8
    &&& forall|i: int|
        0 <= i < 8 ==> #[trigger] member(v->Array_0[i], "name"@) == jstr(tool_names()[i]) && match required_of(i) {
            Some(r) => member(member(v->Array_0[i], "inputSchema"@), "required"@) == JsonV::Array(r),
            None => member(member(v->Array_0[i], "inputSchema"@), "required"@) == JsonV::Null,
        } && member(member(v->Array_0[i], "inputSchema"@), "type"@) == jstr("object"@)
}

proof fn lemma_tool_fields(
    name: Seq<char>,
    desc: Seq<char>,
    props: Seq<(Seq<char>, JsonV)>,
    required: Option<Seq<JsonV>>,
)
    ensures
        member(tool_of(name, desc, props, required), "name"@) == jstr(name),
        member(member(tool_of(name, desc, props, required), "inputSchema"@), "required"@) == match required {
            Some(r) => JsonV::Array(r),
            None => JsonV::Null,
        },
        member(member(tool_of(name, desc, props, required), "inputSchema"@), "type"@) == jstr(
            "object"@,
        ),
        member(member(tool_of(name, desc, props, required), "inputSchema"@), "properties"@)
            == JsonV::Object(props),
{
    let t = tool_of(name, desc, props, required);
    let es = t->Object_0;
    crate::json::lemma_entry_index(es, "name"@, 0);
    assert("description"@ != "inputSchema"@) by {
        reveal_strlit("description");
        reveal_strlit("inputSchema");
        assert("description"@[0] != "inputSchema"@[0]);
    }
    assert("name"@ != "inputSchema"@) by {
        reveal_strlit("name");
        reveal_strlit("inputSchema");
        assert("name"@[0] != "inputSchema"@[0]);
    }
    crate::json::lemma_entry_index(es, "inputSchema"@, 2);
    let s = es[2].1;
    let ss = s->Object_0;
    crate::json::lemma_entry_index(ss, "type"@, 0);
    assert("type"@ != "required"@) by {
        reveal_strlit("type");
        reveal_strlit("required");
        assert("type"@[0] != "required"@[0]);
    }
    assert("properties"@ != "required"@) by {
        reveal_strlit("properties");
        reveal_strlit("required");
        assert("properties"@[0] != "required"@[0]);
    }
    assert("type"@ != "properties"@) by {
        reveal_strlit("type");
        reveal_strlit("properties");
        assert("type"@[0] != "properties"@[0]);
    }
    crate::json::lemma_entry_index(ss, "properties"@, 1);
    match required {
        Some(r) => {
            crate::json::lemma_entry_index(ss, "required"@, 2);
        },
        None => {
            crate::json::lemma_entry_index(ss, "required"@, 2);
        },
    }
}

/// The property that chooses the provider.
pub open spec fn enum_prop_of() -> JsonV {
    JsonV::Object(
        seq![("type"@, jstr("string"@)), ("enum"@, JsonV::Array(seq![jstr("gmail"@), jstr("outlook"@)]))],
    )
}

/// The properties of the `i`-th listed tool.
pub open spec fn props_of(i: int) -> Seq<(Seq<char>, JsonV)> {
    if i == 0 {
        props_0()
    } else if i == 1 {
        props_1()
    } else if i == 2 {
        props_2()
    } else if i == 3 {
        props_3()
    } else if i == 4 {
        props_4()
    } else if i == 5 {
        props_5()
    } else if i == 6 {
        props_6()
    } else {
        props_7()
    }
}

/// The properties of `list_accounts`.
pub open spec fn props_0() -> Seq<(Seq<char>, JsonV)> {
    seq![]
}

/// The properties of `auth_start`.
pub open spec fn props_1() -> Seq<(Seq<char>, JsonV)> {
    seq![("provider"@, enum_prop_of()), ("account_id"@, prop_of("string"@, Some("Unique label for this account (e.g. 'work', 'personal')"@))), ("client_id"@, prop_of("string"@, Some("OAuth2 client ID from Google Cloud Console or Azure AD"@))), ("client_secret"@, prop_of("string"@, Some("OAuth2 client secret (required for Gmail; optional for Outlook public clients)"@)))]
}

/// The properties of `auth_add_icloud`.
pub open spec fn props_2() -> Seq<(Seq<char>, JsonV)> {
    seq![("account_id"@, prop_of("string"@, None)), ("email"@, prop_of("string"@, Some("iCloud email (e.g. user@icloud.com)"@))), ("app_password"@, prop_of("string"@, Some("App-Specific Password from appleid.apple.com"@)))]
}

/// The properties of `auth_remove`.
pub open spec fn props_3() -> Seq<(Seq<char>, JsonV)> {
    seq![("account_id"@, prop_of("string"@, None))]
}

/// The properties of `list_messages`.
pub open spec fn props_4() -> Seq<(Seq<char>, JsonV)> {
    seq![("account_id"@, prop_of("string"@, None)), ("folder"@, prop_of("string"@, Some("inbox (default), sent, drafts, trash, spam"@))), ("max_results"@, prop_of("integer"@, Some("Max messages to return (default 20, max 50)"@)))]
}

/// The properties of `get_message`.
pub open spec fn props_5() -> Seq<(Seq<char>, JsonV)> {
    seq![("account_id"@, prop_of("string"@, None)), ("message_id"@, prop_of("string"@, None))]
}

/// The properties of `send_message`.
pub open spec fn props_6() -> Seq<(Seq<char>, JsonV)> {
    seq![("account_id"@, prop_of("string"@, None)), ("to"@, prop_of("string"@, Some("Recipient email address"@))), ("subject"@, prop_of("string"@, None)), ("body"@, prop_of("string"@, Some("Plain text body"@))), ("cc"@, prop_of("string"@, Some("CC address (optional)"@)))]
}

/// The properties of `search_messages`.
pub open spec fn props_7() -> Seq<(Seq<char>, JsonV)> {
    seq![("account_id"@, prop_of("string"@, None)), ("query"@, prop_of("string"@, None)), ("max_results"@, prop_of("integer"@, Some("Max results (default 20, max 50)"@)))]
}

/// The tools this server offers, with the arguments each takes.
pub open spec fn tool_list_of() -> JsonV {
    JsonV::Array(
        seq![
            tool_of("list_accounts"@, "List all configured email accounts and their authentication status"@, props_0(), required_of(0)),
            tool_of("auth_start"@, "Start OAuth2 authentication for a Gmail or Outlook account. Returns a URL to open in the browser; auth completes automatically when the user accepts."@, props_1(), required_of(1)),
            tool_of("auth_add_icloud"@, "Add an iCloud account using an App-Specific Password. Generate one at appleid.apple.com \u{2192} Sign-In & Security \u{2192} App-Specific Passwords."@, props_2(), required_of(2)),
            tool_of("auth_remove"@, "Remove a configured account"@, props_3(), required_of(3)),
            tool_of("list_messages"@, "List recent emails from an account"@, props_4(), required_of(4)),
            tool_of("get_message"@, "Get full content of a specific email"@, props_5(), required_of(5)),
            tool_of("send_message"@, "Send an email from a configured account"@, props_6(), required_of(6)),
            tool_of("search_messages"@, "Search emails. Gmail supports operators (from:, subject:, has:attachment, etc). Outlook uses KQL syntax."@, props_7(), required_of(7)),
        ],
    )
}

fn enum_prop() -> (r: Json)
    ensures
        r@ == enum_prop_of(),
{
    let mut providers: Vec<Json> = Vec::new();
    push_item(&mut providers, text("gmail"));
    push_item(&mut providers, text("outlook"));
    let ghost pv = view_items(providers@);
    let mut pe: Vec<(String, Json)> = Vec::new();
    push_member(&mut pe, "type", text("string"));
    push_member(&mut pe, "enum", array(providers));
    assert(pv =~= seq![jstr("gmail"@), jstr("outlook"@)]);
    assert(view_entries(pe@) =~= enum_prop_of()->Object_0);
    object(pe)
}

fn tool_0() -> (r: Json)
    ensures
        r@ == tool_of("list_accounts"@, "List all configured email accounts and their authentication status"@, props_0(), required_of(0)),
{
    let mut p: Vec<(String, Json)> = Vec::new();
    assert(view_entries(p@) =~= props_0());
    let req: Option<Vec<Json>> = None;
    proof {
        match &req {
            Some(v) => {
                assert(view_items(v@) =~= required_of(0)->0);
            },
            None => {},
        }
    }
    tool("list_accounts", "List all configured email accounts and their authentication status", p, req)
}

fn tool_1() -> (r: Json)
    ensures
        r@ == tool_of("auth_start"@, "Start OAuth2 authentication for a Gmail or Outlook account. Returns a URL to open in the browser; auth completes automatically when the user accepts."@, props_1(), required_of(1)),
{
    let mut p: Vec<(String, Json)> = Vec::new();
    push_member(&mut p, "provider", enum_prop());
    push_member(&mut p, "account_id", prop("string", Some("Unique label for this account (e.g. 'work', 'personal')")));
    push_member(&mut p, "client_id", prop("string", Some("OAuth2 client ID from Google Cloud Console or Azure AD")));
    push_member(&mut p, "client_secret", prop("string", Some("OAuth2 client secret (required for Gmail; optional for Outlook public clients)")));
    assert(view_entries(p@) =~= props_1());
    let req: Option<Vec<Json>> = Some(strings("provider", Some("account_id"), Some("client_id"), None));
    proof {
        match &req {
            Some(v) => {
                assert(view_items(v@) =~= required_of(1)->0);
            },
            None => {},
        }
    }
    tool("auth_start", "Start OAuth2 authentication for a Gmail or Outlook account. Returns a URL to open in the browser; auth completes automatically when the user accepts.", p, req)
}

fn tool_2() -> (r: Json)
    ensures
        r@ == tool_of("auth_add_icloud"@, "Add an iCloud account using an App-Specific Password. Generate one at appleid.apple.com \u{2192} Sign-In & Security \u{2192} App-Specific Passwords."@, props_2(), required_of(2)),
{
    let mut p: Vec<(String, Json)> = Vec::new();
    push_member(&mut p, "account_id", prop("string", None));
    push_member(&mut p, "email", prop("string", Some("iCloud email (e.g. user@icloud.com)")));
    push_member(&mut p, "app_password", prop("string", Some("App-Specific Password from appleid.apple.com")));
    assert(view_entries(p@) =~= props_2());
    let req: Option<Vec<Json>> = Some(strings("account_id", Some("email"), Some("app_password"), None));
    proof {
        match &req {
            Some(v) => {
                assert(view_items(v@) =~= required_of(2)->0);
            },
            None => {},
        }
    }
    tool("auth_add_icloud", "Add an iCloud account using an App-Specific Password. Generate one at appleid.apple.com \u{2192} Sign-In & Security \u{2192} App-Specific Passwords.", p, req)
}

fn tool_3() -> (r: Json)
    ensures
        r@ == tool_of("auth_remove"@, "Remove a configured account"@, props_3(), required_of(3)),
{
    let mut p: Vec<(String, Json)> = Vec::new();
    push_member(&mut p, "account_id", prop("string", None));
    assert(view_entries(p@) =~= props_3());
    let req: Option<Vec<Json>> = Some(strings("account_id", None, None, None));
    proof {
        match &req {
            Some(v) => {
                assert(view_items(v@) =~= required_of(3)->0);
            },
            None => {},
        }
    }
    tool("auth_remove", "Remove a configured account", p, req)
}

fn tool_4() -> (r: Json)
    ensures
        r@ == tool_of("list_messages"@, "List recent emails from an account"@, props_4(), required_of(4)),
{
    let mut p: Vec<(String, Json)> = Vec::new();
    push_member(&mut p, "account_id", prop("string", None));
    push_member(&mut p, "folder", prop("string", Some("inbox (default), sent, drafts, trash, spam")));
    push_member(&mut p, "max_results", prop("integer", Some("Max messages to return (default 20, max 50)")));
    assert(view_entries(p@) =~= props_4());
    let req: Option<Vec<Json>> = Some(strings("account_id", None, None, None));
    proof {
        match &req {
            Some(v) => {
                assert(view_items(v@) =~= required_of(4)->0);
            },
            None => {},
        }
    }
    tool("list_messages", "List recent emails from an account", p, req)
}

fn tool_5() -> (r: Json)
    ensures
        r@ == tool_of("get_message"@, "Get full content of a specific email"@, props_5(), required_of(5)),
{
    let mut p: Vec<(String, Json)> = Vec::new();
    push_member(&mut p, "account_id", prop("string", None));
    push_member(&mut p, "message_id", prop("string", None));
    assert(view_entries(p@) =~= props_5());
    let req: Option<Vec<Json>> = Some(strings("account_id", Some("message_id"), None, None));
    proof {
        match &req {
            Some(v) => {
                assert(view_items(v@) =~= required_of(5)->0);
            },
            None => {},
        }
    }
    tool("get_message", "Get full content of a specific email", p, req)
}

fn tool_6() -> (r: Json)
    ensures
        r@ == tool_of("send_message"@, "Send an email from a configured account"@, props_6(), required_of(6)),
{
    let mut p: Vec<(String, Json)> = Vec::new();
    push_member(&mut p, "account_id", prop("string", None));
    push_member(&mut p, "to", prop("string", Some("Recipient email address")));
    push_member(&mut p, "subject", prop("string", None));
    push_member(&mut p, "body", prop("string", Some("Plain text body")));
    push_member(&mut p, "cc", prop("string", Some("CC address (optional)")));
    assert(view_entries(p@) =~= props_6());
    let req: Option<Vec<Json>> = Some(strings("account_id", Some("to"), Some("subject"), Some("body")));
    proof {
        match &req {
            Some(v) => {
                assert(view_items(v@) =~= required_of(6)->0);
            },
            None => {},
        }
    }
    tool("send_message", "Send an email from a configured account", p, req)
}

fn tool_7() -> (r: Json)
    ensures
        r@ == tool_of("search_messages"@, "Search emails. Gmail supports operators (from:, subject:, has:attachment, etc). Outlook uses KQL syntax."@, props_7(), required_of(7)),
{
    let mut p: Vec<(String, Json)> = Vec::new();
    push_member(&mut p, "account_id", prop("string", None));
    push_member(&mut p, "query", prop("string", None));
    push_member(&mut p, "max_results", prop("integer", Some("Max results (default 20, max 50)")));
    assert(view_entries(p@) =~= props_7());
    let req: Option<Vec<Json>> = Some(strings("account_id", Some("query"), None, None));
    proof {
        match &req {
            Some(v) => {
                assert(view_items(v@) =~= required_of(7)->0);
            },
            None => {},
        }
    }
    tool("search_messages", "Search emails. Gmail supports operators (from:, subject:, has:attachment, etc). Outlook uses KQL syntax.", p, req)
}

/// The tools this server offers, with the arguments each takes.
pub fn list() -> (r: Json)
    ensures
        r@ == tool_list_of(),
        is_tool_list(r@),
{
    let mut tools: Vec<Json> = Vec::new();
    push_item(&mut tools, tool_0());
    push_item(&mut tools, tool_1());
    push_item(&mut tools, tool_2());
    push_item(&mut tools, tool_3());
    push_item(&mut tools, tool_4());
    push_item(&mut tools, tool_5());
    push_item(&mut tools, tool_6());
    push_item(&mut tools, tool_7());
    proof {
        let v = view_items(tools@);
        assert(v =~= tool_list_of()->Array_0);
        lemma_tool_fields("list_accounts"@, "List all configured email accounts and their authentication status"@, props_0(), required_of(0));
        lemma_tool_fields("auth_start"@, "Start OAuth2 authentication for a Gmail or Outlook account. Returns a URL to open in the browser; auth completes automatically when the user accepts."@, props_1(), required_of(1));
        lemma_tool_fields("auth_add_icloud"@, "Add an iCloud account using an App-Specific Password. Generate one at appleid.apple.com \u{2192} Sign-In & Security \u{2192} App-Specific Passwords."@, props_2(), required_of(2));
        lemma_tool_fields("auth_remove"@, "Remove a configured account"@, props_3(), required_of(3));
        lemma_tool_fields("list_messages"@, "List recent emails from an account"@, props_4(), required_of(4));
        lemma_tool_fields("get_message"@, "Get full content of a specific email"@, props_5(), required_of(5));
        lemma_tool_fields("send_message"@, "Send an email from a configured account"@, props_6(), required_of(6));
        lemma_tool_fields("search_messages"@, "Search emails. Gmail supports operators (from:, subject:, has:attachment, etc). Outlook uses KQL syntax."@, props_7(), required_of(7));
        assert forall|i: int| 0 <= i < 8 implies #[trigger] member(v[i], "name"@) == jstr(tool_names()[i]) && match required_of(i) {
            Some(r) => member(member(v[i], "inputSchema"@), "required"@) == JsonV::Array(r),
            None => member(member(v[i], "inputSchema"@), "required"@) == JsonV::Null,
        } && member(member(v[i], "inputSchema"@), "type"@) == jstr("object"@) by {
            if i == 0 {
            } else if i == 1 {
            } else if i == 2 {
            } else if i == 3 {
            } else if i == 4 {
            } else if i == 5 {
            } else if i == 6 {
            } else {
            }
        }
    }
    array(tools)
}

// ---------------------------------------------------------------------------
// Deciding what a tool call does
// ---------------------------------------------------------------------------

/// A mail operation on an account.
pub enum MailOp {
    List { folder: String, max: usize },
    Get { message_id: String },
    Send { to: String, subject: String, body: String, cc: Option<String> },
    Search { query: String, max: usize },
}

/// The mathematical value of a mail operation.
pub enum MailOpV {
    List(Seq<char>, usize),
    Get(Seq<char>),
    Send(Seq<char>, Seq<char>, Seq<char>, Option<Seq<char>>),
    Search(Seq<char>, usize),
}

impl View for MailOp {
    type V = MailOpV;

    open spec fn view(&self) -> MailOpV {
        match self {
            MailOp::List { folder, max } => MailOpV::List(folder@, *max),
            MailOp::Get { message_id } => MailOpV::Get(message_id@),
            MailOp::Send { to, subject, body, cc } => MailOpV::Send(
                to@,
                subject@,
                body@,
                match cc {
                    Some(c) => Some(c@),
                    None => None,
                },
            ),
            MailOp::Search { query, max } => MailOpV::Search(query@, *max),
        }
    }
}

/// A mail operation on an iCloud account; a message is named by its UID.
pub enum ICloudOp {
    List { folder: String, max: usize },
    Get { uid: u32 },
    Send { to: String, subject: String, body: String, cc: Option<String> },
    Search { query: String, max: usize },
}

/// The mathematical value of an iCloud mail operation.
pub enum ICloudOpV {
    List(Seq<char>, usize),
    Get(u32),
    Send(Seq<char>, Seq<char>, Seq<char>, Option<Seq<char>>),
    Search(Seq<char>, usize),
}

impl View for ICloudOp {
    type V = ICloudOpV;

    open spec fn view(&self) -> ICloudOpV {
        match self {
            ICloudOp::List { folder, max } => ICloudOpV::List(folder@, *max),
            ICloudOp::Get { uid } => ICloudOpV::Get(*uid),
            ICloudOp::Send { to, subject, body, cc } => ICloudOpV::Send(
                to@,
                subject@,
                body@,
                match cc {
                    Some(c) => Some(c@),
                    None => None,
                },
            ),
            ICloudOp::Search { query, max } => ICloudOpV::Search(query@, *max),
        }
    }
}

/// What the server does to answer a tool call.
pub enum ToolPlan {
    /// Answer with this result.
    Reply(Json),
    /// Answer with this value written out as pretty JSON text.
    ReplyPretty(Json),
    /// The accounts changed: store them, then answer with this text.
    SaveThenReply(String),
    /// Start an OAuth authorization.
    StartAuth {
        provider: Provider,
        account_id: String,
        client_id: String,
        client_secret: Option<String>,
    },
    /// Run a mail operation on an account of the provider.
    Mail { provider: Provider, account_id: String, op: MailOp },
    /// Run a mail operation on iCloud, logged in as `email` with the app password.
    ICloudMail { email: String, password: String, op: ICloudOp },
}

/// The mathematical value of a plan.
pub enum PlanV {
    Reply(JsonV),
    ReplyPretty(JsonV),
    SaveThenReply(Seq<char>),
    StartAuth(Provider, Seq<char>, Seq<char>, Option<Seq<char>>),
    Mail(Provider, Seq<char>, MailOpV),
    ICloudMail(Seq<char>, Seq<char>, ICloudOpV),
}

impl View for ToolPlan {
    type V = PlanV;

    open spec fn view(&self) -> PlanV {
        match self {
            ToolPlan::Reply(j) => PlanV::Reply(j@),
            ToolPlan::ReplyPretty(j) => PlanV::ReplyPretty(j@),
            ToolPlan::SaveThenReply(t) => PlanV::SaveThenReply(t@),
            ToolPlan::StartAuth { provider, account_id, client_id, client_secret } => PlanV::StartAuth(
                *provider,
                account_id@,
                client_id@,
                match client_secret {
                    Some(c) => Some(c@),
                    None => None,
                },
            ),
            ToolPlan::Mail { provider, account_id, op } => PlanV::Mail(*provider, account_id@, op@),
            ToolPlan::ICloudMail { email, password, op } => PlanV::ICloudMail(email@, password@, op@),
        }
    }
}

/// A string argument, if present and a string.
pub open spec fn arg(args: JsonV, key: Seq<char>) -> Option<Seq<char>> {
    str_of(member(args, key))
}

/// A string argument, or `d`.
pub open spec fn arg_or(args: JsonV, key: Seq<char>, d: Seq<char>) -> Seq<char> {
    str_or(member(args, key), d)
}

/// A non-empty string argument, if there is one.
pub open spec fn required_arg(args: JsonV, key: Seq<char>) -> Option<Seq<char>> {
    match arg(args, key) {
        Some(s) => if s.len() > 0 {
            Some(s)
        } else {
            None
        },
        None => None,
    }
}

/// The number of messages asked for: `max_results`, 20 by default, at most 50.
pub open spec fn max_results_of(args: JsonV) -> usize {
    let n = match u64_of(member(args, "max_results"@)) {
        Some(n) => n,
        None => 20,
    };
    (if n < 50 {
        n
    } else {
        50
    }) as usize
}

fn get_arg<'a>(args: &'a Json, key: &str) -> (r: Option<&'a str>)
    ensures
        r matches Some(s) ==> arg(args@, key@) == Some(s@),
        r is None ==> arg(args@, key@) is None,
{
    str_at(args, key)
}

fn get_arg_or<'a>(args: &'a Json, key: &str, d: &'a str) -> (r: &'a str)
    ensures
        r@ == arg_or(args@, key@, d@),
{
    match str_at(args, key) {
        Some(s) => s,
        None => d,
    }
}

fn get_required(args: &Json, key: &str) -> (r: Option<String>)
    ensures
        r matches Some(s) ==> required_arg(args@, key@) == Some(s@),
        r is None ==> required_arg(args@, key@) is None,
{
    match str_at(args, key) {
        Some(s) => if !s.is_empty() {
            Some(copy_str(s))
        } else {
            None
        },
        None => None,
    }
}

fn max_results(args: &Json) -> (r: usize)
    ensures
        r == max_results_of(args@),
{
    let n = match args.get("max_results") {
        Some(v) => match v.as_u64() {
            Some(n) => n,
            None => 20,
        },
        None => 20,
    };
    (if n < 50 {
        n
    } else {
        50
    }) as usize
}

/// The entry of an account in the account overview.
pub open spec fn account_entry_of(a: Account) -> JsonV {
    JsonV::Object(
        seq![
            ("id"@, jstr(a.id@)),
            ("provider"@, jstr(provider_name(a.provider))),
            ("email"@, match a.email {
                Some(e) => jstr(e@),
                None => JsonV::Null,
            }),
            ("authenticated"@, JsonV::Bool(a.access_token is Some || a.icloud_password is Some)),
        ],
    )
}

/// The overview of the accounts and of the authorizations in progress.
pub open spec fn overview_of(accounts: Seq<Account>, pending: Seq<PendingAuth>) -> JsonV {
    JsonV::Object(
        seq![
            ("accounts"@, JsonV::Array(accounts.map_values(|a: Account| account_entry_of(a)))),
            ("pending_auth"@, JsonV::Array(
                pending.map_values(|p: PendingAuth| jstr(p.account_id@)),
            )),
        ],
    )
}

fn account_entry(a: &Account) -> (r: Json)
    ensures
        r@ == account_entry_of(*a),
{
    let mut es: Vec<(String, Json)> = Vec::new();
    push_member(&mut es, "id", text(a.id.as_str()));
    push_member(&mut es, "provider", text(a.provider.as_str()));
    let email = match &a.email {
        Some(e) => text(e.as_str()),
        None => Json::Null,
    };
    push_member(&mut es, "email", email);
    push_member(
        &mut es,
        "authenticated",
        Json::Bool(a.access_token.is_some() || a.icloud_password.is_some()),
    );
    assert(view_entries(es@) =~= account_entry_of(*a)->Object_0);
    object(es)
}

/// The overview of the accounts and of the authorizations in progress.
pub fn accounts_overview(state: &AppState) -> (r: Json)
    ensures
        r@ == overview_of(state.accounts(), state.pending()),
{
    let accounts = state.load_accounts();
    let mut list: Vec<Json> = Vec::new();
    let n = accounts.len();
    for i in 0..n
        invariant
            n == accounts@.len(),
            accounts@ == state.accounts(),
            view_items(list@) == accounts@.take(i as int).map_values(
                |a: Account| account_entry_of(a),
            ),
    {
        push_item(&mut list, account_entry(&accounts[i]));
        assert(accounts@.take(i + 1).map_values(|a: Account| account_entry_of(a)) =~= accounts@.take(
            i as int,
        ).map_values(|a: Account| account_entry_of(a)).push(account_entry_of(accounts@[i as int])));
    }
    assert(accounts@.take(n as int) =~= accounts@);
    let ids = state.pending_account_ids();
    let mut pend: Vec<Json> = Vec::new();
    let m = ids.len();
    for i in 0..m
        invariant
            m == ids@.len(),
            m == state.pending().len(),
            forall|j: int| 0 <= j < m ==> #[trigger] ids@[j]@ == state.pending()[j].account_id@,
            view_items(pend@) == state.pending().take(i as int).map_values(
                |p: PendingAuth| jstr(p.account_id@),
            ),
    {
        push_item(&mut pend, text(ids[i].as_str()));
        assert(state.pending().take(i + 1).map_values(|p: PendingAuth| jstr(p.account_id@))
            =~= state.pending().take(i as int).map_values(|p: PendingAuth| jstr(p.account_id@)).push(
            jstr(state.pending()[i as int].account_id@),
        ));
    }
    assert(state.pending().take(m as int) =~= state.pending());
    let mut es: Vec<(String, Json)> = Vec::new();
    push_member(&mut es, "accounts", array(list));
    push_member(&mut es, "pending_auth", array(pend));
    assert(view_entries(es@) =~= overview_of(state.accounts(), state.pending())->Object_0);
    object(es)
}

/// The plan for `auth_start`.
pub open spec fn auth_start_plan_of(args: JsonV) -> PlanV {
    let p = arg_or(args, "provider"@, ""@);
    if p == "gmail"@ || p == "outlook"@ {
        match required_arg(args, "account_id"@) {
            None => PlanV::Reply(error_result_of("account_id is required"@)),
            Some(aid) => match required_arg(args, "client_id"@) {
                None => PlanV::Reply(error_result_of("client_id is required"@)),
                Some(cid) => PlanV::StartAuth(
                    if p == "gmail"@ {
                        Provider::Gmail
                    } else {
                        Provider::Outlook
                    },
                    aid,
                    cid,
                    arg(args, "client_secret"@),
                ),
            },
        }
    } else {
        PlanV::Reply(
            error_result_of("unknown provider '"@ + p + "'; use 'gmail' or 'outlook'"@),
        )
    }
}

fn plan_auth_start(args: &Json) -> (r: ToolPlan)
    ensures
        r@ == auth_start_plan_of(args@),
{
    let p = get_arg_or(args, "provider", "");
    let provider = if str_eq(p, "gmail") {
        Provider::Gmail
    } else if str_eq(p, "outlook") {
        Provider::Outlook
    } else {
        let m = cat3("unknown provider '", p, "'; use 'gmail' or 'outlook'");
        return ToolPlan::Reply(error_result(m.as_str()));
    };
    let account_id = match get_required(args, "account_id") {
        Some(a) => a,
        None => {
            return ToolPlan::Reply(error_result("account_id is required"));
        },
    };
    let client_id = match get_required(args, "client_id") {
        Some(c) => c,
        None => {
            return ToolPlan::Reply(error_result("client_id is required"));
        },
    };
    let client_secret = match get_arg(args, "client_secret") {
        Some(s) => Some(copy_str(s)),
        None => None,
    };
    ToolPlan::StartAuth { provider, account_id, client_id, client_secret }
}

/// The account `auth_add_icloud` adds.
pub open spec fn is_icloud_account(a: Account, id: Seq<char>, email: Seq<char>, password: Seq<char>) -> bool {
    &&& a.id@ == id
    &&& a.provider == Provider::ICloud
    &&& a.email matches Some(e) && e@ == email
    &&& a.client_id@ == Seq::<char>::empty()
    &&& a.client_secret is None
    &&& a.access_token is None
    &&& a.refresh_token is None
    &&& a.expires_at is None
    &&& a.icloud_password matches Some(p) && p@ == password
}

/// The answer `auth_add_icloud` gives.
pub open spec fn icloud_added_text(id: Seq<char>) -> Seq<char> {
    "iCloud account '"@ + id + "' added."@
}

/// The plan of `auth_add_icloud`, and the error if an argument is missing.
pub open spec fn add_icloud_error_of(args: JsonV) -> Option<Seq<char>> {
    if required_arg(args, "account_id"@) is None {
        Some("account_id is required"@)
    } else if required_arg(args, "email"@) is None {
        Some("email is required"@)
    } else if required_arg(args, "app_password"@) is None {
        Some("app_password is required"@)
    } else {
        None
    }
}

fn plan_add_icloud(state: &mut AppState, args: &Json) -> (r: ToolPlan)
    requires
        old(state).wf(),
    ensures
        final(state).wf(),
        final(state).pending() == old(state).pending(),
        final(state).dir() == old(state).dir(),
        add_icloud_error_of(args@) matches Some(m) ==> r@ == PlanV::Reply(error_result_of(m))
            && final(state).accounts() == old(state).accounts(),
        add_icloud_error_of(args@) is None ==> r@ == PlanV::SaveThenReply(
            icloud_added_text(required_arg(args@, "account_id"@)->0),
        ) && exists|a: Account|
            is_icloud_account(
                a,
                required_arg(args@, "account_id"@)->0,
                required_arg(args@, "email"@)->0,
                required_arg(args@, "app_password"@)->0,
            ) && final(state).accounts() == upserted(old(state).accounts(), a),
{
    let account_id = match get_required(args, "account_id") {
        Some(a) => a,
        None => {
            return ToolPlan::Reply(error_result("account_id is required"));
        },
    };
    let email = match get_required(args, "email") {
        Some(e) => e,
        None => {
            return ToolPlan::Reply(error_result("email is required"));
        },
    };
    let app_password = match get_required(args, "app_password") {
        Some(p) => p,
        None => {
            return ToolPlan::Reply(error_result("app_password is required"));
        },
    };
    let msg = cat3(
        "iCloud account '",
        account_id.as_str(),
        "' added.",
    );
    let account = Account {
        id: account_id,
        provider: Provider::ICloud,
        email: Some(email),
        client_id: String::new(),
        client_secret: None,
        access_token: None,
        refresh_token: None,
        expires_at: None,
        icloud_password: Some(app_password),
    };
    let ghost a = account;
    state.upsert_account(account);
    assert(is_icloud_account(
        a,
        required_arg(args@, "account_id"@)->0,
        required_arg(args@, "email"@)->0,
        required_arg(args@, "app_password"@)->0,
    ));
    ToolPlan::SaveThenReply(msg)
}

/// The plan of `auth_remove`, given the accounts before the call.
pub open spec fn remove_plan_of(accounts: Seq<Account>, args: JsonV) -> PlanV {
    let id = arg_or(args, "account_id"@, ""@);
    if lookup(accounts, id) is Some {
        PlanV::SaveThenReply("Account '"@ + id + "' removed."@)
    } else {
        PlanV::Reply(text_result_of("Account '"@ + id + "' not found."@))
    }
}

fn plan_remove(state: &mut AppState, args: &Json) -> (r: ToolPlan)
    requires
        old(state).wf(),
    ensures
        final(state).wf(),
        final(state).pending() == old(state).pending(),
        final(state).dir() == old(state).dir(),
        r@ == remove_plan_of(old(state).accounts(), args@),
        final(state).accounts() == without_id(
            old(state).accounts(),
            arg_or(args@, "account_id"@, ""@),
        ),
{
    let id = get_arg_or(args, "account_id", "");
    let removed = state.remove_account(id);
    if removed {
        ToolPlan::SaveThenReply(cat3("Account '", id, "' removed."))
    } else {
        ToolPlan::Reply(text_result(cat3("Account '", id, "' not found.")))
    }
}

/// Whether a tool name is one of the mail operations.
pub open spec fn is_mail_tool(name: Seq<char>) -> bool {
    name == "list_messages"@ || name == "get_message"@ || name == "send_message"@ || name
        == "search_messages"@
}

/// The mail operation a mail tool asks for.
pub open spec fn mail_op_of(name: Seq<char>, args: JsonV) -> MailOpV {
    if name == "list_messages"@ {
        MailOpV::List(arg_or(args, "folder"@, "inbox"@), max_results_of(args))
    } else if name == "get_message"@ {
        MailOpV::Get(arg_or(args, "message_id"@, ""@))
    } else if name == "send_message"@ {
        MailOpV::Send(
            arg_or(args, "to"@, ""@),
            arg_or(args, "subject"@, ""@),
            arg_or(args, "body"@, ""@),
            arg(args, "cc"@),
        )
    } else {
        MailOpV::Search(arg_or(args, "query"@, ""@), max_results_of(args))
    }
}

/// The IMAP UID that a message id writes, if it is one.
pub open spec fn uid_of(id: Seq<char>) -> Option<u32> {
    match parse_u64(id) {
        Some(n) => if n <= u32::MAX {
            Some(n as u32)
        } else {
            None
        },
        None => None,
    }
}

/// The iCloud operation a mail tool asks for; `None` when `get_message` is
/// given an id that is not a UID.
pub open spec fn icloud_op_of(name: Seq<char>, args: JsonV) -> Option<ICloudOpV> {
    match mail_op_of(name, args) {
        MailOpV::List(f, m) => Some(ICloudOpV::List(f, m)),
        MailOpV::Get(id) => match uid_of(id) {
            Some(u) => Some(ICloudOpV::Get(u)),
            None => None,
        },
        MailOpV::Send(t, s, b, c) => Some(ICloudOpV::Send(t, s, b, c)),
        MailOpV::Search(q, m) => Some(ICloudOpV::Search(q, m)),
    }
}

/// The plan of a mail tool on the iCloud account `a` with id `id`: it needs
/// the account's address and app password.
pub open spec fn icloud_plan_of(a: Account, id: Seq<char>, name: Seq<char>, args: JsonV) -> PlanV {
    match (a.email, a.icloud_password) {
        (Some(e), Some(p)) => match icloud_op_of(name, args) {
            Some(op) => PlanV::ICloudMail(e@, p@, op),
            None => PlanV::Reply(
                error_result_of("invalid message id '"@ + arg_or(args, "message_id"@, ""@) + "'"@),
            ),
        },
        _ => PlanV::Reply(error_result_of("account '"@ + id + "' is not authenticated"@)),
    }
}

/// The plan of a mail tool.
pub open spec fn mail_plan_of(accounts: Seq<Account>, name: Seq<char>, args: JsonV) -> PlanV {
    let id = arg_or(args, "account_id"@, ""@);
    match lookup(accounts, id) {
        None => PlanV::Reply(error_result_of("account '"@ + id + "' not found"@)),
        Some(a) => if a.provider == Provider::ICloud {
            icloud_plan_of(a, id, name, args)
        } else {
            PlanV::Mail(a.provider, id, mail_op_of(name, args))
        },
    }
}

fn mail_op(name: &str, args: &Json) -> (r: MailOp)
    ensures
        r@ == mail_op_of(name@, args@),
{
    if str_eq(name, "list_messages") {
        MailOp::List {
            folder: copy_str(get_arg_or(args, "folder", "inbox")),
            max: max_results(args),
        }
    } else if str_eq(name, "get_message") {
        MailOp::Get { message_id: copy_str(get_arg_or(args, "message_id", "")) }
    } else if str_eq(name, "send_message") {
        MailOp::Send {
            to: copy_str(get_arg_or(args, "to", "")),
            subject: copy_str(get_arg_or(args, "subject", "")),
            body: copy_str(get_arg_or(args, "body", "")),
            cc: match get_arg(args, "cc") {
                Some(c) => Some(copy_str(c)),
                None => None,
            },
        }
    } else {
        MailOp::Search { query: copy_str(get_arg_or(args, "query", "")), max: max_results(args) }
    }
}

fn plan_mail(state: &AppState, name: &str, args: &Json) -> (r: ToolPlan)
    ensures
        r@ == mail_plan_of(state.accounts(), name@, args@),
{
    let id = get_arg_or(args, "account_id", "");
    let account = match state.get_account(id) {
        Some(a) => a,
        None => {
            let m = cat3("account '", id, "' not found");
            return ToolPlan::Reply(error_result(m.as_str()));
        },
    };
    match account.provider {
        Provider::ICloud => plan_icloud(&account, id, name, args),
        p => ToolPlan::Mail { provider: p, account_id: copy_str(id), op: mail_op(name, args) },
    }
}

fn uid(id: &str) -> (r: Option<u32>)
    ensures
        r == uid_of(id@),
{
    match parse_decimal(id) {
        Some(n) => if n <= 0xffff_ffffu64 {
            Some(n as u32)
        } else {
            None
        },
        None => None,
    }
}

fn icloud_op(name: &str, args: &Json) -> (r: Option<ICloudOp>)
    ensures
        r matches Some(op) ==> icloud_op_of(name@, args@) == Some(op@),
        r is None ==> icloud_op_of(name@, args@) is None,
{
    match mail_op(name, args) {
        MailOp::List { folder, max } => Some(ICloudOp::List { folder, max }),
        MailOp::Get { message_id } => match uid(message_id.as_str()) {
            Some(u) => Some(ICloudOp::Get { uid: u }),
            None => None,
        },
        MailOp::Send { to, subject, body, cc } => Some(ICloudOp::Send { to, subject, body, cc }),
        MailOp::Search { query, max } => Some(ICloudOp::Search { query, max }),
    }
}

fn plan_icloud(account: &Account, id: &str, name: &str, args: &Json) -> (r: ToolPlan)
    ensures
        r@ == icloud_plan_of(*account, id@, name@, args@),
{
    match (&account.email, &account.icloud_password) {
        (Some(e), Some(p)) => match icloud_op(name, args) {
            Some(op) => ToolPlan::ICloudMail { email: e.clone(), password: p.clone(), op },
            None => {
                let m = cat3("invalid message id '", get_arg_or(args, "message_id", ""), "'");
                ToolPlan::Reply(error_result(m.as_str()))
            },
        },
        _ => {
            let m = cat3("account '", id, "' is not authenticated");
            ToolPlan::Reply(error_result(m.as_str()))
        },
    }
}

/// Whether `name` is a tool that a call is dispatched to.
pub open spec fn is_known_tool(name: Seq<char>) -> bool {
    name == "list_accounts"@ || name == "auth_start"@ || name == "auth_add_icloud"@ || name
        == "auth_remove"@ || is_mail_tool(name)
}

/// What a tool call does, given the accounts and authorizations before it.
pub open spec fn plan_of(
    accounts: Seq<Account>,
    pending: Seq<PendingAuth>,
    name: Seq<char>,
    args: JsonV,
) -> PlanV {
    if is_known_tool(name) {
        dispatch_of(accounts, pending, name, args)
    } else {
        PlanV::Reply(error_result_of("unknown tool: "@ + name))
    }
}

/// What a call of the known tool `name` does.
pub open spec fn dispatch_of(
    accounts: Seq<Account>,
    pending: Seq<PendingAuth>,
    name: Seq<char>,
    args: JsonV,
) -> PlanV {
    if name == "list_accounts"@ {
        PlanV::ReplyPretty(overview_of(accounts, pending))
    } else if name == "auth_start"@ {
        auth_start_plan_of(args)
    } else if name == "auth_add_icloud"@ {
        match add_icloud_error_of(args) {
            Some(m) => PlanV::Reply(error_result_of(m)),
            None => PlanV::SaveThenReply(icloud_added_text(required_arg(args, "account_id"@)->0)),
        }
    } else if name == "auth_remove"@ {
        remove_plan_of(accounts, args)
    } else {
        mail_plan_of(accounts, name, args)
    }
}

proof fn lemma_tool_names_differ()
    ensures
        "list_accounts"@ != "auth_add_icloud"@,
        "auth_start"@ != "auth_add_icloud"@,
        "auth_remove"@ != "auth_add_icloud"@,
        "list_messages"@ != "auth_add_icloud"@,
        "get_message"@ != "auth_add_icloud"@,
        "send_message"@ != "auth_add_icloud"@,
        "search_messages"@ != "auth_add_icloud"@,
        "list_accounts"@ != "auth_remove"@,
        "auth_start"@ != "auth_remove"@,
        "auth_add_icloud"@ != "auth_remove"@,
        "list_messages"@ != "auth_remove"@,
        "get_message"@ != "auth_remove"@,
        "send_message"@ != "auth_remove"@,
        "search_messages"@ != "auth_remove"@,
{
    reveal_strlit("list_accounts");
    reveal_strlit("auth_start");
    reveal_strlit("auth_add_icloud");
    reveal_strlit("auth_remove");
    reveal_strlit("list_messages");
    reveal_strlit("get_message");
    reveal_strlit("send_message");
    reveal_strlit("search_messages");
    assert("search_messages"@[0] != "auth_add_icloud"@[0]);
    assert("get_message"@[0] != "auth_remove"@[0]);
    assert("auth_start"@[5] != "auth_add_icloud"@[5]);
    assert("auth_remove"@[5] != "auth_add_icloud"@[5]);
    assert("auth_start"@[5] != "auth_remove"@[5]);
}

/// Decides what the tool call `name` with `args` does. Only `auth_add_icloud`
/// and `auth_remove` change the accounts; no tool changes the authorizations
/// in progress here.
pub fn plan_tool(state: &mut AppState, name: &str, args: &Json) -> (r: ToolPlan)
    requires
        old(state).wf(),
    ensures
        final(state).wf(),
        r@ == plan_of(old(state).accounts(), old(state).pending(), name@, args@),
        final(state).pending() == old(state).pending(),
        final(state).dir() == old(state).dir(),
        name@ == "auth_add_icloud"@ && add_icloud_error_of(args@) is None ==> exists|a: Account|
            is_icloud_account(
                a,
                required_arg(args@, "account_id"@)->0,
                required_arg(args@, "email"@)->0,
                required_arg(args@, "app_password"@)->0,
            ) && final(state).accounts() == upserted(old(state).accounts(), a),
        name@ == "auth_remove"@ ==> final(state).accounts() == without_id(
            old(state).accounts(),
            arg_or(args@, "account_id"@, ""@),
        ),
        !(name@ == "auth_remove"@ || (name@ == "auth_add_icloud"@ && add_icloud_error_of(args@) is None))
            ==> final(state).accounts() == old(state).accounts(),
{
    proof {
        lemma_tool_names_differ();
    }
    if str_eq(name, "list_accounts") {
        ToolPlan::ReplyPretty(accounts_overview(state))
    } else if str_eq(name, "auth_start") {
        plan_auth_start(args)
    } else if str_eq(name, "auth_add_icloud") {
        plan_add_icloud(state, args)
    } else if str_eq(name, "auth_remove") {
        plan_remove(state, args)
    } else if str_eq(name, "list_messages") || str_eq(name, "get_message") || str_eq(
        name,
        "send_message",
    ) || str_eq(name, "search_messages") {
        plan_mail(state, name, args)
    } else {
        ToolPlan::Reply(error_result(cat("unknown tool: ", name).as_str()))
    }
}

/// What a tool call answers when it fails with the message `m`, or succeeds
/// with the result `r`.
pub fn call_result(outcome: Result<Json, String>) -> (r: Json)
    ensures
        outcome matches Ok(v) ==> r@ == v@,
        outcome matches Err(m) ==> r@ == error_result_of(m@),
{
    match outcome {
        Ok(v) => v,
        Err(m) => error_result(m.as_str()),
    }
}


// ---------------------------------------------------------------------------
// Laws of the tools
// ---------------------------------------------------------------------------

/// The number of messages a tool asks for is at most 50, and 20 when
/// `max_results` is not given as a non-negative integer.
pub proof fn law_max_results(args: JsonV)
    ensures
        max_results_of(args) <= 50,
        u64_of(member(args, "max_results"@)) is None ==> max_results_of(args) == 20,
        forall|n: u64| u64_of(member(args, "max_results"@)) == Some(n) && n <= 50 ==> max_results_of(args)
            == n,
{
}

/// An iCloud account that `auth_add_icloud` stores is then found under its
/// id, and the overview shows it as an authenticated iCloud account.
pub proof fn law_icloud_added_is_listed(
    s: Seq<Account>,
    a: Account,
    id: Seq<char>,
    email: Seq<char>,
    password: Seq<char>,
)
    requires
        is_icloud_account(a, id, email, password),
    ensures
        lookup(upserted(s, a), id) == Some(a),
        member(account_entry_of(a), "authenticated"@) == JsonV::Bool(true),
        member(account_entry_of(a), "provider"@) == jstr("icloud"@),
        member(account_entry_of(a), "id"@) == jstr(id),
{
    crate::config::law_get_after_upsert(s, a);
    let es = account_entry_of(a)->Object_0;
    reveal_strlit("id");
    reveal_strlit("provider");
    reveal_strlit("email");
    reveal_strlit("authenticated");
    assert("id"@[0] != "provider"@[0]);
    assert("id"@[0] != "email"@[0]);
    assert("provider"@[0] != "email"@[0]);
    assert("id"@[0] != "authenticated"@[0]);
    assert("provider"@[0] != "authenticated"@[0]);
    assert("email"@[0] != "authenticated"@[0]);
    crate::json::lemma_entry_index(es, "id"@, 0);
    crate::json::lemma_entry_index(es, "provider"@, 1);
    crate::json::lemma_entry_index(es, "authenticated"@, 3);
}

/// Every listed tool can be called: its schema lists each required argument
/// among its properties, and a call by its name is dispatched to that tool
/// rather than answered as an unknown tool.
pub proof fn law_listed_tools_are_dispatched(
    i: int,
    accounts: Seq<Account>,
    pending: Seq<PendingAuth>,
    args: JsonV,
)
    requires
        0 <= i < 8,
    ensures
        member(tool_list_of()->Array_0[i], "name"@) == jstr(tool_names()[i]),
        member(member(tool_list_of()->Array_0[i], "inputSchema"@), "properties"@) == JsonV::Object(
            props_of(i),
        ),
        member(member(tool_list_of()->Array_0[i], "inputSchema"@), "required"@) == match required_of(i) {
            Some(r) => JsonV::Array(r),
            None => JsonV::Null,
        },
        required_of(i) matches Some(r) ==> forall|j: int|
            0 <= j < r.len() ==> #[trigger] r[j] is Str && lookup_member(
                JsonV::Object(props_of(i)),
                r[j]->Str_0,
            ) is Some,
        is_known_tool(tool_names()[i]),
        plan_of(accounts, pending, tool_names()[i], args) == dispatch_of(
            accounts,
            pending,
            tool_names()[i],
            args,
        ),
{
    let t = tool_list_of()->Array_0[i];
    lemma_tool_fields(tool_names()[i], t->Object_0[1].1->Str_0, props_of(i), required_of(i));
    assert(t == tool_of(tool_names()[i], t->Object_0[1].1->Str_0, props_of(i), required_of(i)));
    match required_of(i) {
        Some(r) => {
            assert forall|j: int| 0 <= j < r.len() implies #[trigger] r[j] is Str && lookup_member(
                JsonV::Object(props_of(i)),
                r[j]->Str_0,
            ) is Some by {
                assert(r[j] == jstr(props_of(i)[j].0));
                crate::json::lemma_entry_index_found(props_of(i), r[j]->Str_0, j);
            }
        },
        None => {},
    }
}

/// Once `auth_add_icloud` has stored an iCloud account, a mail tool called
/// for its id runs on iCloud, logged in with the stored address and app
/// password (a `get_message` id must be a UID).
pub proof fn law_icloud_mail_after_add(
    s: Seq<Account>,
    a: Account,
    id: Seq<char>,
    email: Seq<char>,
    password: Seq<char>,
    name: Seq<char>,
    args: JsonV,
)
    requires
        is_icloud_account(a, id, email, password),
        is_mail_tool(name),
        arg_or(args, "account_id"@, ""@) == id,
        icloud_op_of(name, args) is Some,
    ensures
        mail_plan_of(upserted(s, a), name, args) == PlanV::ICloudMail(
            email,
            password,
            icloud_op_of(name, args)->0,
        ),
{
    crate::config::law_get_after_upsert(s, a);
}

/// A failed tool result is marked as an error and carries the message after `Error: `.
pub proof fn law_error_result(m: Seq<char>)
    ensures
        member(error_result_of(m), "isError"@) == JsonV::Bool(true),
        member(error_result_of(m), "content"@) == JsonV::Array(
            seq![JsonV::Object(seq![("type"@, jstr("text"@)), ("text"@, jstr("Error: "@ + m))])],
        ),
{
    let es = error_result_of(m)->Object_0;
    reveal_strlit("isError");
    reveal_strlit("content");
    assert("isError"@[0] != "content"@[0]);
    crate::json::lemma_entry_index(es, "isError"@, 0);
    crate::json::lemma_entry_index(es, "content"@, 1);
}

}
