use vstd::prelude::*;

use crate::codec::{json_quote, json_quoted};
use crate::json::{
    Json, JsonV, array, bool_of, items_of, jstr, lemma_view_items, member, member2, member3,
    member_or_null, object, push_item, push_member, str_at, str_of, text, view_entries, view_items,
};
use crate::text::{copy_str, decimal, decimal_string, str_eq};

verus! {

/// The mail folder of Outlook for a folder name of the tools.
pub open spec fn folder_of(folder: Seq<char>) -> Seq<char> {
    if folder == "inbox"@ || folder == ""@ {
        "Inbox"@
    } else if folder == "sent"@ {
        "SentItems"@
    } else if folder == "drafts"@ {
        "Drafts"@
    } else if folder == "trash"@ {
        "DeletedItems"@
    } else if folder == "spam"@ {
        "JunkEmail"@
    } else {
        folder
    }
}

/// The mail folder of Outlook for a folder name of the tools; other names pass through.
pub fn outlook_folder<'a>(folder: &'a str) -> (r: &'a str)
    ensures
        r@ == folder_of(folder@),
{
    if str_eq(folder, "inbox") || str_eq(folder, "") {
        "Inbox"
    } else if str_eq(folder, "sent") {
        "SentItems"
    } else if str_eq(folder, "drafts") {
        "Drafts"
    } else if str_eq(folder, "trash") {
        "DeletedItems"
    } else if str_eq(folder, "spam") {
        "JunkEmail"
    } else {
        folder
    }
}

/// The request that lists the newest `max` messages of a folder.
pub fn list_url(folder: &str, max: usize) -> (s: String)
    ensures
        s@ == "https://graph.microsoft.com/v1.0/me/mailFolders/"@ + folder_of(folder@)
            + "/messages?$top="@ + decimal(max as nat)
            + "&$select=id,subject,from,receivedDateTime,isRead,bodyPreview&$orderby=receivedDateTime desc"@,
{
    let mut s = copy_str("https://graph.microsoft.com/v1.0/me/mailFolders/");
    s.append(outlook_folder(folder));
    s.append("/messages?$top=");
    s.append(decimal_string(max as u64).as_str());
    s.append(
        "&$select=id,subject,from,receivedDateTime,isRead,bodyPreview&$orderby=receivedDateTime desc",
    );
    s
}

/// The request for one message.
pub fn message_url(id: &str) -> (s: String)
    ensures
        s@ == "https://graph.microsoft.com/v1.0/me/messages/"@ + id@,
{
    let mut s = copy_str("https://graph.microsoft.com/v1.0/me/messages/");
    s.append(id);
    s
}

/// The request that searches for up to `max` messages; the query is sent as
/// a JSON string literal.
pub fn search_url(query: &str, max: usize) -> (s: String)
    ensures
        s@ == "https://graph.microsoft.com/v1.0/me/messages?$search="@ + json_quoted(query@)
            + "&$top="@ + decimal(max as nat)
            + "&$select=id,subject,from,receivedDateTime,isRead,bodyPreview"@,
{
    let q = match json_quote(query) {
        Some(q) => q,
        None => String::new(),
    };
    let mut s = copy_str("https://graph.microsoft.com/v1.0/me/messages?$search=");
    s.append(q.as_str());
    s.append("&$top=");
    s.append(decimal_string(max as u64).as_str());
    s.append("&$select=id,subject,from,receivedDateTime,isRead,bodyPreview");
    s
}

/// The address that sends a message.
pub fn send_url() -> (s: &'static str)
    ensures
        s@ == "https://graph.microsoft.com/v1.0/me/sendMail"@,
{
    "https://graph.microsoft.com/v1.0/me/sendMail"
}

/// The error message of an answer that reports an error, or `default`.
pub open spec fn api_error_of(resp: JsonV, default: Seq<char>) -> Option<Seq<char>> {
    if member(resp, "error"@) is Object {
        Some(
            match str_of(member(member(resp, "error"@), "message"@)) {
                Some(m) => m,
                None => default,
            },
        )
    } else {
        None
    }
}

/// The error an answer reports, if it reports one (its message, or `default`).
pub fn api_error(resp: &Json, default: &str) -> (r: Option<String>)
    ensures
        r matches Some(m) ==> api_error_of(resp@, default@) == Some(m@),
        r is None ==> api_error_of(resp@, default@) is None,
{
    match resp.get("error") {
        Some(e) => {
            if e.is_object() {
                match str_at(e, "message") {
                    Some(m) => Some(copy_str(m)),
                    None => Some(copy_str(default)),
                }
            } else {
                None
            }
        },
        None => None,
    }
}

/// Whether a message is unread: it is not marked read (unknown counts as read).
pub open spec fn unread_of(msg: JsonV) -> bool {
    !match bool_of(member(msg, "isRead"@)) {
        Some(b) => b,
        None => true,
    }
}

/// The summary of a message in a listing.
pub open spec fn summary_of(msg: JsonV) -> JsonV {
    JsonV::Object(
        seq![
            ("id"@, member(msg, "id"@)),
            ("subject"@, member(msg, "subject"@)),
            ("from"@, member(member(member(msg, "from"@), "emailAddress"@), "address"@)),
            ("date"@, member(msg, "receivedDateTime"@)),
            ("snippet"@, member(msg, "bodyPreview"@)),
            ("unread"@, JsonV::Bool(unread_of(msg))),
        ],
    )
}

/// The summary of a message in a listing.
pub fn summarize(msg: &Json) -> (r: Json)
    ensures
        r@ == summary_of(msg@),
{
    let read = match msg.get("isRead") {
        Some(v) => match v.as_bool() {
            Some(b) => b,
            None => true,
        },
        None => true,
    };
    let mut es: Vec<(String, Json)> = Vec::new();
    push_member(&mut es, "id", member_or_null(msg, "id"));
    push_member(&mut es, "subject", member_or_null(msg, "subject"));
    push_member(&mut es, "from", member3(msg, "from", "emailAddress", "address"));
    push_member(&mut es, "date", member_or_null(msg, "receivedDateTime"));
    push_member(&mut es, "snippet", member_or_null(msg, "bodyPreview"));
    push_member(&mut es, "unread", Json::Bool(!read));
    assert(view_entries(es@) =~= summary_of(msg@)->Object_0);
    object(es)
}

/// The summaries of the messages in a listing answer.
pub open spec fn summaries_of(resp: JsonV) -> Seq<JsonV> {
    match items_of(member(resp, "value"@)) {
        Some(items) => items.map_values(|m: JsonV| summary_of(m)),
        None => Seq::empty(),
    }
}

/// The listing answer: the summaries of the listed messages.
pub fn messages_result(resp: &Json) -> (r: Json)
    ensures
        r@ == JsonV::Object(seq![("messages"@, JsonV::Array(summaries_of(resp@)))]),
{
    let mut out: Vec<Json> = Vec::new();
    let ghost mut target: Seq<JsonV> = Seq::empty();
    match resp.get("value") {
        Some(v) => match v.as_array() {
            Some(arr) => {
                proof {
                    lemma_view_items(arr@);
                    target = view_items(arr@).map_values(|m: JsonV| summary_of(m));
                }
                let n = arr.len();
                for i in 0..n
                    invariant
                        n == arr@.len(),
                        view_items(arr@).len() == n,
                        forall|k: int| 0 <= k < n ==> #[trigger] view_items(arr@)[k] == arr@[k]@,
                        target == view_items(arr@).map_values(|m: JsonV| summary_of(m)),
                        view_items(out@) == target.take(i as int),
                {
                    push_item(&mut out, summarize(&arr[i]));
                    assert(target.take(i + 1) =~= target.take(i as int).push(
                        summary_of(arr@[i as int]@),
                    ));
                }
                assert(target.take(n as int) =~= target);
            },
            None => {
                assert(view_items(out@) =~= target);
            },
        },
        None => {
            assert(view_items(out@) =~= target);
        },
    }
    assert(target == summaries_of(resp@));
    let mut es: Vec<(String, Json)> = Vec::new();
    push_member(&mut es, "messages", array(out));
    assert(view_entries(es@) =~= seq![("messages"@, JsonV::Array(summaries_of(resp@)))]);
    object(es)
}

/// The addresses of the recipients, skipping entries without one.
pub open spec fn addresses_in(items: Seq<JsonV>) -> Seq<JsonV>
    decreases items.len(),
{
    if items.len() == 0 {
        Seq::empty()
    } else {
        let rest = addresses_in(items.drop_last());
        match str_of(member(member(items.last(), "emailAddress"@), "address"@)) {
            Some(a) => rest.push(jstr(a)),
            None => rest,
        }
    }
}

/// The full view of a message.
pub open spec fn detail_of(msg: JsonV) -> JsonV {
    JsonV::Object(
        seq![
            ("id"@, member(msg, "id"@)),
            ("subject"@, member(msg, "subject"@)),
            ("from"@, member(member(member(msg, "from"@), "emailAddress"@), "address"@)),
            ("to"@, JsonV::Array(
                match items_of(member(msg, "toRecipients"@)) {
                    Some(items) => addresses_in(items),
                    None => Seq::empty(),
                },
            )),
            ("date"@, member(msg, "receivedDateTime"@)),
            ("body"@, member(member(msg, "body"@), "content"@)),
            ("body_type"@, member(member(msg, "body"@), "contentType"@)),
            ("is_read"@, member(msg, "isRead"@)),
        ],
    )
}

/// The full view of a message.
pub fn message_detail(msg: &Json) -> (r: Json)
    ensures
        r@ == detail_of(msg@),
{
    let mut to: Vec<Json> = Vec::new();
    let ghost mut want: Seq<JsonV> = Seq::empty();
    match msg.get("toRecipients") {
        Some(v) => match v.as_array() {
            Some(arr) => {
                let ghost items = view_items(arr@);
                proof {
                    lemma_view_items(arr@);
                    want = addresses_in(items);
                }
                let n = arr.len();
                for i in 0..n
                    invariant
                        n == arr@.len(),
                        items == view_items(arr@),
                        items.len() == n,
                        forall|k: int| 0 <= k < n ==> #[trigger] items[k] == arr@[k]@,
                        view_items(to@) == addresses_in(items.take(i as int)),
                {
                    proof {
                        assert(items.take(i + 1).drop_last() =~= items.take(i as int));
                        assert(items.take(i + 1).last() == arr@[i as int]@);
                    }
                    match arr[i].get("emailAddress") {
                        Some(e) => match str_at(e, "address") {
                            Some(a) => {
                                push_item(&mut to, text(a));
                            },
                            None => {},
                        },
                        None => {},
                    }
                }
                assert(items.take(n as int) =~= items);
            },
            None => {
                assert(view_items(to@) =~= want);
            },
        },
        None => {
            assert(view_items(to@) =~= want);
        },
    }
    let mut es: Vec<(String, Json)> = Vec::new();
    push_member(&mut es, "id", member_or_null(msg, "id"));
    push_member(&mut es, "subject", member_or_null(msg, "subject"));
    push_member(&mut es, "from", member3(msg, "from", "emailAddress", "address"));
    push_member(&mut es, "to", array(to));
    push_member(&mut es, "date", member_or_null(msg, "receivedDateTime"));
    push_member(&mut es, "body", member2(msg, "body", "content"));
    push_member(&mut es, "body_type", member2(msg, "body", "contentType"));
    push_member(&mut es, "is_read", member_or_null(msg, "isRead"));
    assert(view_entries(es@) =~= detail_of(msg@)->Object_0);
    object(es)
}

/// A recipient entry.
pub open spec fn recipient_of(addr: Seq<char>) -> JsonV {
    JsonV::Object(seq![("emailAddress"@, JsonV::Object(seq![("address"@, jstr(addr))]))])
}

fn recipient(addr: &str) -> (r: Json)
    ensures
        r@ == recipient_of(addr@),
{
    let mut inner: Vec<(String, Json)> = Vec::new();
    push_member(&mut inner, "address", text(addr));
    assert(view_entries(inner@) =~= seq![("address"@, jstr(addr@))]);
    let mut outer: Vec<(String, Json)> = Vec::new();
    push_member(&mut outer, "emailAddress", object(inner));
    assert(view_entries(outer@) =~= recipient_of(addr@)->Object_0);
    object(outer)
}

/// The request body that sends a plain-text message.
pub open spec fn send_payload_of(
    to: Seq<char>,
    subject: Seq<char>,
    body: Seq<char>,
    cc: Option<Seq<char>>,
) -> JsonV {
    JsonV::Object(
        seq![
            ("message"@, JsonV::Object(
                seq![
                    ("subject"@, jstr(subject)),
                    ("body"@, JsonV::Object(
                        seq![("contentType"@, jstr("Text"@)), ("content"@, jstr(body))],
                    )),
                    ("toRecipients"@, JsonV::Array(seq![recipient_of(to)])),
                    ("ccRecipients"@, JsonV::Array(
                        match cc {
                            Some(c) => seq![recipient_of(c)],
                            None => Seq::empty(),
                        },
                    )),
                ],
            )),
        ],
    )
}

/// The request body that sends a plain-text message to `to`, with an
/// optional copy to `cc`.
pub fn send_payload(to: &str, subject: &str, body: &str, cc: Option<&str>) -> (r: Json)
    ensures
        r@ == send_payload_of(
            to@,
            subject@,
            body@,
            match cc {
                Some(c) => Some(c@),
                None => None,
            },
        ),
{
    let mut ccs: Vec<Json> = Vec::new();
    match cc {
        Some(c) => {
            push_item(&mut ccs, recipient(c));
        },
        None => {},
    }
    let mut tos: Vec<Json> = Vec::new();
    push_item(&mut tos, recipient(to));
    let mut b: Vec<(String, Json)> = Vec::new();
    push_member(&mut b, "contentType", text("Text"));
    push_member(&mut b, "content", text(body));
    let mut m: Vec<(String, Json)> = Vec::new();
    push_member(&mut m, "subject", text(subject));
    push_member(&mut m, "body", object(b));
    push_member(&mut m, "toRecipients", array(tos));
    push_member(&mut m, "ccRecipients", array(ccs));
    let mut outer: Vec<(String, Json)> = Vec::new();
    push_member(&mut outer, "message", object(m));
    proof {
        let ccv = match cc {
            Some(c) => Some(c@),
            None => None,
        };
        let want = send_payload_of(to@, subject@, body@, ccv);
        assert(view_items(ccs@) =~= (match ccv {
            Some(c) => seq![recipient_of(c)],
            None => Seq::<JsonV>::empty(),
        }));
        assert(view_items(tos@) =~= seq![recipient_of(to@)]);
        assert(view_entries(b@) =~= seq![("contentType"@, jstr("Text"@)), ("content"@, jstr(body@))]);
        assert(view_entries(m@) =~= want->Object_0[0].1->Object_0);
        assert(view_entries(outer@) =~= want->Object_0);
    }
    object(outer)
}


/// The error for a refused send, with the body of the answer.
pub fn send_failed(body: &str) -> (m: String)
    ensures
        m@ == "Send failed: "@ + body@,
{
    crate::text::cat("Send failed: ", body)
}

/// What a successful send answers.
pub fn sent() -> (m: String)
    ensures
        m@ == "sent"@,
{
    copy_str("sent")
}



/// The sender shown for a message, in its listing summary and in its full
/// view, is the address at `from.emailAddress.address` of the Graph message
/// (not the display name).
pub proof fn law_from_is_sender_address(msg: JsonV, a: JsonV)
    requires
        member(member(member(msg, "from"@), "emailAddress"@), "address"@) == a,
    ensures
        member(summary_of(msg), "from"@) == a,
        member(detail_of(msg), "from"@) == a,
        member(summary_of(msg), "from"@) == member(detail_of(msg), "from"@),
{
    reveal_strlit("from");
    reveal_strlit("id");
    reveal_strlit("subject");
    let es = summary_of(msg)->Object_0;
    assert(es[0].0[0] != 'f' && es[1].0[0] != 'f');
    crate::json::lemma_entry_index(es, "from"@, 2);
    let ds = detail_of(msg)->Object_0;
    assert(ds[0].0[0] != 'f' && ds[1].0[0] != 'f');
    crate::json::lemma_entry_index(ds, "from"@, 2);
}

/// A listed message is shown unread exactly when Graph marks it
/// `"isRead": false`; marked read, or with no such mark, it is shown read.
pub proof fn law_unread_is_not_read(msg: JsonV)
    ensures
        member(msg, "isRead"@) == JsonV::Bool(false) ==> member(summary_of(msg), "unread"@)
            == JsonV::Bool(true),
        member(msg, "isRead"@) != JsonV::Bool(false) ==> member(summary_of(msg), "unread"@)
            == JsonV::Bool(false),
{
    reveal_strlit("unread");
    reveal_strlit("id");
    reveal_strlit("subject");
    reveal_strlit("from");
    reveal_strlit("date");
    reveal_strlit("snippet");
    let es = summary_of(msg)->Object_0;
    assert(forall|k: int| 0 <= k < 5 ==> es[k].0[0] != 'u');
    assert(forall|k: int| 0 <= k < 5 ==> #[trigger] es[k].0 != "unread"@);
    crate::json::lemma_entry_index(es, "unread"@, 5);
}

}
