use vstd::prelude::*;
use vstd::utf8::encode_utf8;

use crate::codec::{b64url, b64url_decode, b64url_decoded, b64url_encode, percent_encoded, url_encode};
use crate::headers::{decode_lossy, utf8_lossy};
use crate::json::{
    Json, JsonV, array, items_of, jstr, lemma_member_item_decreases, lemma_view_items,
    member, member_or_null, object, push_member, str_at, str_of, text, view_entries,
    view_items,
};
use crate::text::{
    cat3, copy_str, decimal, decimal_string, eq_ignore_ascii_case, eq_ignore_case, str_eq,
};

verus! {

/// The Gmail label for a folder name of the tools.
pub open spec fn label_of(folder: Seq<char>) -> Seq<char> {
    if folder == "inbox"@ || folder == ""@ {
        "INBOX"@
    } else if folder == "sent"@ {
        "SENT"@
    } else if folder == "drafts"@ {
        "DRAFT"@
    } else if folder == "spam"@ {
        "SPAM"@
    } else if folder == "trash"@ {
        "TRASH"@
    } else {
        folder
    }
}

/// The Gmail label for a folder name of the tools; other names pass through.
pub fn gmail_label<'a>(folder: &'a str) -> (r: &'a str)
    ensures
        r@ == label_of(folder@),
{
    if str_eq(folder, "inbox") || str_eq(folder, "") {
        "INBOX"
    } else if str_eq(folder, "sent") {
        "SENT"
    } else if str_eq(folder, "drafts") {
        "DRAFT"
    } else if str_eq(folder, "spam") {
        "SPAM"
    } else if str_eq(folder, "trash") {
        "TRASH"
    } else {
        folder
    }
}

/// The address of the messages collection.
pub open spec fn messages_base() -> Seq<char> {
    "https://gmail.googleapis.com/gmail/v1/users/me/messages"@
}

/// The request that lists up to `max` messages of a folder.
pub fn list_url(folder: &str, max: usize) -> (s: String)
    ensures
        s@ == messages_base() + "?maxResults="@ + decimal(max as nat) + "&labelIds="@ + label_of(
            folder@,
        ),
{
    let mut s = copy_str("https://gmail.googleapis.com/gmail/v1/users/me/messages");
    s.append("?maxResults=");
    s.append(decimal_string(max as u64).as_str());
    s.append("&labelIds=");
    s.append(gmail_label(folder));
    s
}

/// The request that searches for up to `max` messages.
pub fn search_url(query: &str, max: usize) -> (s: String)
    ensures
        s@ == messages_base() + "?maxResults="@ + decimal(max as nat) + "&q="@ + percent_encoded(
            encode_utf8(query@),
        ),
{
    let mut s = copy_str("https://gmail.googleapis.com/gmail/v1/users/me/messages");
    s.append("?maxResults=");
    s.append(decimal_string(max as u64).as_str());
    s.append("&q=");
    s.append(url_encode(query).as_str());
    s
}

/// The request for the From, Subject and Date headers of a message.
pub fn metadata_url(id: &str) -> (s: String)
    ensures
        s@ == messages_base() + "/"@ + id@
            + "?format=metadata&metadataHeaders=From&metadataHeaders=Subject&metadataHeaders=Date"@,
{
    let mut s = copy_str("https://gmail.googleapis.com/gmail/v1/users/me/messages");
    s.append("/");
    s.append(id);
    s.append("?format=metadata&metadataHeaders=From&metadataHeaders=Subject&metadataHeaders=Date");
    s
}

/// The request for a whole message.
pub fn full_url(id: &str) -> (s: String)
    ensures
        s@ == messages_base() + "/"@ + id@ + "?format=full"@,
{
    let mut s = copy_str("https://gmail.googleapis.com/gmail/v1/users/me/messages");
    s.append("/");
    s.append(id);
    s.append("?format=full");
    s
}

/// The address that sends a message.
pub open spec fn send_url_of() -> Seq<char> {
    "https://gmail.googleapis.com/gmail/v1/users/me/messages/send"@
}

/// The address that sends a message.
pub fn send_url() -> (s: &'static str)
    ensures
        s@ == send_url_of(),
{
    "https://gmail.googleapis.com/gmail/v1/users/me/messages/send"
}

// ---------------------------------------------------------------------------
// Reading answers
// ---------------------------------------------------------------------------

/// The string ids of the listed messages, in order, skipping entries without one.
pub open spec fn ids_in(items: Seq<JsonV>) -> Seq<Seq<char>>
    decreases items.len(),
{
    if items.len() == 0 {
        Seq::empty()
    } else {
        let rest = ids_in(items.drop_last());
        match str_of(member(items.last(), "id"@)) {
            Some(id) => rest.push(id),
            None => rest,
        }
    }
}

/// The message ids of a list answer.
pub open spec fn message_ids_of(list: JsonV) -> Seq<Seq<char>> {
    match items_of(member(list, "messages"@)) {
        Some(items) => ids_in(items),
        None => Seq::empty(),
    }
}

/// The first `max` message ids of a list answer.
pub fn message_ids(list: &Json, max: usize) -> (r: Vec<String>)
    ensures
        r@.len() == (if message_ids_of(list@).len() < max {
            message_ids_of(list@).len()
        } else {
            max as nat
        }),
        forall|i: int| 0 <= i < r@.len() ==> #[trigger] r@[i]@ == message_ids_of(list@)[i],
{
    let mut all: Vec<String> = Vec::new();
    let ghost mut items: Seq<JsonV> = Seq::empty();
    match list.get("messages") {
        Some(m) => match m.as_array() {
            Some(arr) => {
                proof {
                    items = view_items(arr@);
                    lemma_view_items(arr@);
                }
                let n = arr.len();
                for i in 0..n
                    invariant
                        n == arr@.len(),
                        items == view_items(arr@),
                        items.len() == n,
                        forall|k: int| 0 <= k < n ==> #[trigger] items[k] == arr@[k]@,
                        all@.len() == ids_in(items.take(i as int)).len(),
                        forall|k: int|
                            0 <= k < all@.len() ==> #[trigger] all@[k]@ == ids_in(
                                items.take(i as int),
                            )[k],
                {
                    proof {
                        assert(items.take(i + 1).drop_last() =~= items.take(i as int));
                        assert(items.take(i + 1).last() == arr@[i as int]@);
                    }
                    match str_at(&arr[i], "id") {
                        Some(id) => {
                            all.push(copy_str(id));
                        },
                        None => {},
                    }
                }
                assert(items.take(n as int) =~= items);
            },
            None => {},
        },
        None => {},
    }
    assert(all@.len() == message_ids_of(list@).len());
    let mut r: Vec<String> = Vec::new();
    let k = if all.len() < max {
        all.len()
    } else {
        max
    };
    for i in 0..k
        invariant
            k <= all@.len(),
            all@.len() == message_ids_of(list@).len(),
            forall|j: int| 0 <= j < all@.len() ==> #[trigger] all@[j]@ == message_ids_of(list@)[j],
            r@.len() == i,
            forall|j: int| 0 <= j < i ==> #[trigger] r@[j]@ == message_ids_of(list@)[j],
    {
        r.push(all[i].clone());
    }
    r
}

/// The first header named `name` (in any ASCII case) among `hs`.
pub open spec fn find_header(hs: Seq<JsonV>, name: Seq<char>) -> Option<JsonV>
    decreases hs.len(),
{
    if hs.len() == 0 {
        None
    } else {
        match str_of(member(hs[0], "name"@)) {
            Some(n) => if eq_ignore_ascii_case(n, name) {
                Some(hs[0])
            } else {
                find_header(hs.drop_first(), name)
            },
            None => find_header(hs.drop_first(), name),
        }
    }
}

/// The value of the header `name` of a message, or the empty string.
pub open spec fn header_of(msg: JsonV, name: Seq<char>) -> Seq<char> {
    match items_of(member(member(msg, "payload"@), "headers"@)) {
        Some(hs) => match find_header(hs, name) {
            Some(h) => match str_of(member(h, "value"@)) {
                Some(v) => v,
                None => Seq::empty(),
            },
            None => Seq::empty(),
        },
        None => Seq::empty(),
    }
}

/// The value of the header `name` of a message, or the empty string.
pub fn header(msg: &Json, name: &str) -> (r: String)
    ensures
        r@ == header_of(msg@, name@),
{
    let hs = match msg.get("payload") {
        Some(p) => match p.get("headers") {
            Some(h) => match h.as_array() {
                Some(a) => a,
                None => {
                    return String::new();
                },
            },
            None => {
                return String::new();
            },
        },
        None => {
            return String::new();
        },
    };
    let ghost items = view_items(hs@);
    proof {
        lemma_view_items(hs@);
        assert(items.skip(0) =~= items);
    }
    let n = hs.len();
    for i in 0..n
        invariant
            n == hs@.len(),
            items == view_items(hs@),
            items.len() == n,
            forall|k: int| 0 <= k < n ==> #[trigger] items[k] == hs@[k]@,
            header_of(msg@, name@) == match find_header(items.skip(i as int), name@) {
                Some(h) => match str_of(member(h, "value"@)) {
                    Some(v) => v,
                    None => Seq::<char>::empty(),
                },
                None => Seq::<char>::empty(),
            },
    {
        let ghost rest = items.skip(i as int);
        proof {
            assert(rest[0] == hs@[i as int]@);
            assert(rest.drop_first() =~= items.skip(i + 1));
        }
        match str_at(&hs[i], "name") {
            Some(n) => {
                if eq_ignore_case(n, name) {
                    return match str_at(&hs[i], "value") {
                        Some(v) => copy_str(v),
                        None => String::new(),
                    };
                }
            },
            None => {},
        }
    }
    proof {
        assert(items.skip(n as int).len() == 0);
    }
    String::new()
}

/// Whether a message carries the label `UNREAD`.
pub open spec fn unread_of(msg: JsonV) -> bool {
    match items_of(member(msg, "labelIds"@)) {
        Some(ls) => exists|i: int| 0 <= i < ls.len() && ls[i] == jstr("UNREAD"@),
        None => false,
    }
}

/// Whether a message carries the label `UNREAD`.
pub fn is_unread(msg: &Json) -> (r: bool)
    ensures
        r == unread_of(msg@),
{
    let ls = match msg.get("labelIds") {
        Some(l) => match l.as_array() {
            Some(a) => a,
            None => {
                return false;
            },
        },
        None => {
            return false;
        },
    };
    proof {
        lemma_view_items(ls@);
    }
    let n = ls.len();
    for i in 0..n
        invariant
            n == ls@.len(),
            view_items(ls@).len() == n,
            forall|k: int| 0 <= k < n ==> #[trigger] view_items(ls@)[k] == ls@[k]@,
            forall|k: int| 0 <= k < i ==> view_items(ls@)[k] != jstr("UNREAD"@),
            items_of(member(msg@, "labelIds"@)) == Some(view_items(ls@)),
    {
        match ls[i].as_str() {
            Some(s) => {
                if str_eq(s, "UNREAD") {
                    assert(view_items(ls@)[i as int] == jstr("UNREAD"@));
                    return true;
                }
            },
            None => {},
        }
    }
    false
}

/// The summary of a message in a listing.
pub open spec fn summary_of(msg: JsonV) -> JsonV {
    JsonV::Object(
        seq![
            ("id"@, member(msg, "id"@)),
            ("thread_id"@, member(msg, "threadId"@)),
            ("subject"@, jstr(header_of(msg, "Subject"@))),
            ("from"@, jstr(header_of(msg, "From"@))),
            ("date"@, jstr(header_of(msg, "Date"@))),
            ("snippet"@, member(msg, "snippet"@)),
            ("unread"@, JsonV::Bool(unread_of(msg))),
        ],
    )
}

/// The summary of a message in a listing.
pub fn summarize(msg: &Json) -> (r: Json)
    ensures
        r@ == summary_of(msg@),
{
    let mut es: Vec<(String, Json)> = Vec::new();
    push_member(&mut es, "id", member_or_null(msg, "id"));
    push_member(&mut es, "thread_id", member_or_null(msg, "threadId"));
    push_member(&mut es, "subject", Json::Str(header(msg, "Subject")));
    push_member(&mut es, "from", Json::Str(header(msg, "From")));
    push_member(&mut es, "date", Json::Str(header(msg, "Date")));
    push_member(&mut es, "snippet", member_or_null(msg, "snippet"));
    push_member(&mut es, "unread", Json::Bool(is_unread(msg)));
    assert(view_entries(es@) =~= summary_of(msg@)->Object_0);
    object(es)
}

/// The listing answer: the summaries and the size estimate of the list.
pub fn list_result(summaries: Vec<Json>, list: &Json) -> (r: Json)
    ensures
        r@ == JsonV::Object(
            seq![
                ("messages"@, JsonV::Array(view_items(summaries@))),
                ("total_estimate"@, member(list@, "resultSizeEstimate"@)),
            ],
        ),
{
    let mut es: Vec<(String, Json)> = Vec::new();
    push_member(&mut es, "messages", array(summaries));
    push_member(&mut es, "total_estimate", member_or_null(list, "resultSizeEstimate"));
    assert(view_entries(es@) =~= seq![
        ("messages"@, JsonV::Array(view_items(summaries@))),
        ("total_estimate"@, member(list@, "resultSizeEstimate"@)),
    ]);
    object(es)
}

/// The search answer: the summaries.
pub fn search_result(summaries: Vec<Json>) -> (r: Json)
    ensures
        r@ == JsonV::Object(seq![("messages"@, JsonV::Array(view_items(summaries@)))]),
{
    let mut es: Vec<(String, Json)> = Vec::new();
    push_member(&mut es, "messages", array(summaries));
    assert(view_entries(es@) =~= seq![("messages"@, JsonV::Array(view_items(summaries@)))]);
    object(es)
}

// ---------------------------------------------------------------------------
// Message bodies
// ---------------------------------------------------------------------------

/// The text of a base64 body part, if it decodes.
pub open spec fn decoded_text(data: Seq<char>) -> Option<Seq<char>> {
    match b64url_decoded(data) {
        Some(bytes) => Some(utf8_lossy(bytes)),
        None => None,
    }
}

/// The text of the first of `parts` of type `mime` whose data decodes.
pub open spec fn first_of_type(parts: Seq<JsonV>, mime: Seq<char>) -> Option<Seq<char>>
    decreases parts.len(),
{
    if parts.len() == 0 {
        None
    } else {
        let p = parts[0];
        if str_of(member(p, "mimeType"@)) == Some(mime) && str_of(
            member(member(p, "body"@), "data"@),
        ) is Some && decoded_text(str_of(member(member(p, "body"@), "data"@))->0) is Some {
            decoded_text(str_of(member(member(p, "body"@), "data"@))->0)
        } else {
            first_of_type(parts.drop_first(), mime)
        }
    }
}

/// The text of a message payload: its own data if it is non-empty and
/// decodes; else the first plain-text part, then the first HTML part, whose
/// data decodes; else the first part that has a non-empty text; else nothing.
pub open spec fn body_of(p: JsonV) -> Seq<char>
    decreases p, parts_len(p) + 1,
{
    let data = str_of(member(member(p, "body"@), "data"@));
    if data is Some && data->0.len() > 0 && decoded_text(data->0) is Some {
        decoded_text(data->0)->0
    } else {
        match items_of(member(p, "parts"@)) {
            Some(parts) => {
                if first_of_type(parts, "text/plain"@) is Some {
                    first_of_type(parts, "text/plain"@)->0
                } else if first_of_type(parts, "text/html"@) is Some {
                    first_of_type(parts, "text/html"@)->0
                } else {
                    nested_body(p, parts, 0)
                }
            },
            None => Seq::empty(),
        }
    }
}

/// The number of parts of a payload.
pub open spec fn parts_len(p: JsonV) -> int {
    match items_of(member(p, "parts"@)) {
        Some(v) => v.len() as int,
        None => 0,
    }
}

/// The first non-empty text of `parts` from position `i` on; `parts` are the
/// parts of `p`.
pub open spec fn nested_body(p: JsonV, parts: Seq<JsonV>, i: int) -> Seq<char>
    decreases p, parts.len() - i,
{
    if items_of(member(p, "parts"@)) == Some(parts) && 0 <= i < parts.len() {
        proof {
            lemma_member_item_decreases(p, "parts"@, i);
        }
        if body_of(parts[i]).len() > 0 {
            body_of(parts[i])
        } else {
            nested_body(p, parts, i + 1)
        }
    } else {
        Seq::empty()
    }
}

/// The text of a base64 body part, if it decodes.
fn decode_text(data: &str) -> (r: Option<String>)
    ensures
        r matches Some(t) ==> decoded_text(data@) == Some(t@),
        r is None ==> decoded_text(data@) is None,
{
    match b64url_decode(data) {
        Some(bytes) => {
            proof {
                let c = choose|v: Seq<u8>| b64url(v) == data@;
                crate::codec::lemma_b64url_injective(c, bytes@);
            }
            Some(decode_lossy(bytes.as_slice()))
        },
        None => None,
    }
}

fn body_data(p: &Json) -> (r: Option<&str>)
    ensures
        r matches Some(s) ==> str_of(member(member(p@, "body"@), "data"@)) == Some(s@),
        r is None ==> str_of(member(member(p@, "body"@), "data"@)) is None,
{
    match p.get("body") {
        Some(b) => str_at(b, "data"),
        None => None,
    }
}

fn part_of_type(parts: &Vec<Json>, mime: &str) -> (r: Option<String>)
    ensures
        r matches Some(t) ==> first_of_type(view_items(parts@), mime@) == Some(t@),
        r is None ==> first_of_type(view_items(parts@), mime@) is None,
{
    let ghost items = view_items(parts@);
    proof {
        lemma_view_items(parts@);
        assert(items.skip(0) =~= items);
    }
    let n = parts.len();
    for i in 0..n
        invariant
            n == parts@.len(),
            items == view_items(parts@),
            items.len() == n,
            forall|k: int| 0 <= k < n ==> #[trigger] items[k] == parts@[k]@,
            first_of_type(items, mime@) == first_of_type(items.skip(i as int), mime@),
    {
        let ghost rest = items.skip(i as int);
        proof {
            assert(rest[0] == parts@[i as int]@);
            assert(rest.drop_first() =~= items.skip(i + 1));
        }
        let p = &parts[i];
        let is_type = match str_at(p, "mimeType") {
            Some(m) => str_eq(m, mime),
            None => false,
        };
        if is_type {
            match body_data(p) {
                Some(d) => match decode_text(d) {
                    Some(t) => {
                        return Some(t);
                    },
                    None => {},
                },
                None => {},
            }
        }
    }
    proof {
        assert(items.skip(n as int).len() == 0);
    }
    None
}

/// The text of a message payload (see `body_of`).
pub fn extract_body(payload: &Json) -> (r: String)
    ensures
        r@ == body_of(payload@),
    decreases payload@,
{
    match body_data(payload) {
        Some(d) => {
            if !d.is_empty() {
                match decode_text(d) {
                    Some(t) => {
                        return t;
                    },
                    None => {},
                }
            }
        },
        None => {},
    }
    let parts = match payload.get("parts") {
        Some(ps) => match ps.as_array() {
            Some(a) => a,
            None => {
                return String::new();
            },
        },
        None => {
            return String::new();
        },
    };
    let ghost items = view_items(parts@);
    proof {
        lemma_view_items(parts@);
    }
    match part_of_type(parts, "text/plain") {
        Some(t) => {
            return t;
        },
        None => {},
    }
    match part_of_type(parts, "text/html") {
        Some(t) => {
            return t;
        },
        None => {},
    }
    let n = parts.len();
    for i in 0..n
        invariant
            n == parts@.len(),
            items == view_items(parts@),
            items.len() == n,
            forall|k: int| 0 <= k < n ==> #[trigger] items[k] == parts@[k]@,
            items_of(member(payload@, "parts"@)) == Some(items),
            body_of(payload@) == nested_body(payload@, items, i as int),
    {
        proof {
            lemma_member_item_decreases(payload@, "parts"@, i as int);
        }
        let nested = extract_body(&parts[i]);
        if !nested.as_str().is_empty() {
            return nested;
        }
    }
    String::new()
}

/// The full view of a message.
pub open spec fn detail_of(msg: JsonV) -> JsonV {
    JsonV::Object(
        seq![
            ("id"@, member(msg, "id"@)),
            ("thread_id"@, member(msg, "threadId"@)),
            ("subject"@, jstr(header_of(msg, "Subject"@))),
            ("from"@, jstr(header_of(msg, "From"@))),
            ("to"@, jstr(header_of(msg, "To"@))),
            ("cc"@, jstr(header_of(msg, "Cc"@))),
            ("date"@, jstr(header_of(msg, "Date"@))),
            ("body"@, jstr(body_of(member(msg, "payload"@)))),
            ("snippet"@, member(msg, "snippet"@)),
            ("unread"@, JsonV::Bool(unread_of(msg))),
        ],
    )
}

/// The full view of a message.
pub fn message_detail(msg: &Json) -> (r: Json)
    ensures
        r@ == detail_of(msg@),
{
    let payload = member_or_null(msg, "payload");
    let mut es: Vec<(String, Json)> = Vec::new();
    push_member(&mut es, "id", member_or_null(msg, "id"));
    push_member(&mut es, "thread_id", member_or_null(msg, "threadId"));
    push_member(&mut es, "subject", Json::Str(header(msg, "Subject")));
    push_member(&mut es, "from", Json::Str(header(msg, "From")));
    push_member(&mut es, "to", Json::Str(header(msg, "To")));
    push_member(&mut es, "cc", Json::Str(header(msg, "Cc")));
    push_member(&mut es, "date", Json::Str(header(msg, "Date")));
    push_member(&mut es, "body", Json::Str(extract_body(&payload)));
    push_member(&mut es, "snippet", member_or_null(msg, "snippet"));
    push_member(&mut es, "unread", Json::Bool(is_unread(msg)));
    assert(view_entries(es@) =~= detail_of(msg@)->Object_0);
    object(es)
}

// ---------------------------------------------------------------------------
// Sending
// ---------------------------------------------------------------------------

/// The raw message that is sent.
pub open spec fn raw_message_of(
    to: Seq<char>,
    subject: Seq<char>,
    body: Seq<char>,
    cc: Option<Seq<char>>,
) -> Seq<char> {
    let head = "To: "@ + to + "\r\nSubject: "@ + subject
        + "\r\nContent-Type: text/plain; charset=utf-8\r\n"@;
    let head = match cc {
        Some(c) => head + "Cc: "@ + c + "\r\n"@,
        None => head,
    };
    head + "\r\n"@ + body
}

/// The raw plain-text message to `to`, with an optional copy to `cc`.
pub fn raw_message(to: &str, subject: &str, body: &str, cc: Option<&str>) -> (s: String)
    ensures
        s@ == raw_message_of(
            to@,
            subject@,
            body@,
            match cc {
                Some(c) => Some(c@),
                None => None,
            },
        ),
{
    let mut raw = cat3("To: ", to, "\r\nSubject: ");
    raw.append(subject);
    raw.append("\r\nContent-Type: text/plain; charset=utf-8\r\n");
    match cc {
        Some(c) => {
            raw.append("Cc: ");
            raw.append(c);
            raw.append("\r\n");
        },
        None => {},
    }
    raw.append("\r\n");
    raw.append(body);
    raw
}

/// The request body that sends a raw message: the message in URL-safe base64.
pub fn send_payload(raw: &str) -> (r: Json)
    requires
        encode_utf8(raw@).len() <= usize::MAX / 2,
    ensures
        r@ == JsonV::Object(seq![("raw"@, jstr(b64url(encode_utf8(raw@))))]),
{
    let encoded = b64url_encode(raw.as_bytes());
    let mut es: Vec<(String, Json)> = Vec::new();
    push_member(&mut es, "raw", Json::Str(encoded));
    assert(view_entries(es@) =~= seq![("raw"@, jstr(b64url(encode_utf8(raw@))))]);
    object(es)
}

/// What the answer to a send means: the error message if it reports an
/// error, else the id of the sent message.
pub open spec fn send_outcome_of(resp: JsonV) -> Result<Seq<char>, Seq<char>> {
    if member(resp, "error"@) is Object {
        Err(
            match str_of(member(member(resp, "error"@), "message"@)) {
                Some(m) => m,
                None => "send failed"@,
            },
        )
    } else {
        Ok(
            match str_of(member(resp, "id"@)) {
                Some(i) => i,
                None => Seq::empty(),
            },
        )
    }
}

/// What the answer to a send means.
pub fn send_outcome(resp: &Json) -> (r: Result<String, String>)
    ensures
        r matches Ok(id) ==> send_outcome_of(resp@) == Ok::<Seq<char>, Seq<char>>(id@),
        r matches Err(m) ==> send_outcome_of(resp@) == Err::<Seq<char>, Seq<char>>(m@),
{
    match resp.get("error") {
        Some(e) => {
            if e.is_object() {
                return match str_at(e, "message") {
                    Some(m) => Err(copy_str(m)),
                    None => Err(copy_str("send failed")),
                };
            }
        },
        None => {},
    }
    match str_at(resp, "id") {
        Some(i) => Ok(copy_str(i)),
        None => Ok(String::new()),
    }
}


/// A message is reported unread, in its listing summary and in its full view,
/// exactly when some entry of its `labelIds` array is the string `UNREAD`,
/// wherever it stands in the array; without such an array it is read.
pub proof fn law_unread_label(msg: JsonV, labels: Seq<JsonV>, i: int)
    ensures
        member(msg, "labelIds"@) == JsonV::Array(labels) && 0 <= i < labels.len() && labels[i]
            == jstr("UNREAD"@) ==> member(summary_of(msg), "unread"@) == JsonV::Bool(true) && member(
            detail_of(msg),
            "unread"@,
        ) == JsonV::Bool(true),
        member(msg, "labelIds"@) == JsonV::Array(labels) && (forall|j: int|
            0 <= j < labels.len() ==> labels[j] != jstr("UNREAD"@)) ==> member(
            summary_of(msg),
            "unread"@,
        ) == JsonV::Bool(false) && member(detail_of(msg), "unread"@) == JsonV::Bool(false),
        !(member(msg, "labelIds"@) is Array) ==> member(summary_of(msg), "unread"@) == JsonV::Bool(
            false,
        ) && member(detail_of(msg), "unread"@) == JsonV::Bool(false),
{
    reveal_strlit("unread");
    reveal_strlit("id");
    reveal_strlit("thread_id");
    reveal_strlit("subject");
    reveal_strlit("from");
    reveal_strlit("to");
    reveal_strlit("cc");
    reveal_strlit("date");
    reveal_strlit("body");
    reveal_strlit("snippet");
    let es = summary_of(msg)->Object_0;
    assert(forall|k: int| 0 <= k < 6 ==> es[k].0[0] != 'u');
    assert(forall|k: int| 0 <= k < 6 ==> #[trigger] es[k].0 != "unread"@);
    crate::json::lemma_entry_index(es, "unread"@, 6);
    let ds = detail_of(msg)->Object_0;
    assert(forall|k: int| 0 <= k < 9 ==> ds[k].0[0] != 'u');
    assert(forall|k: int| 0 <= k < 9 ==> #[trigger] ds[k].0 != "unread"@);
    crate::json::lemma_entry_index(ds, "unread"@, 9);
    if member(msg, "labelIds"@) == JsonV::Array(labels) && 0 <= i < labels.len() && labels[i] == jstr(
        "UNREAD"@,
    ) {
        assert(unread_of(msg));
    }
}

/// Sending goes to the `messages.send` method: the messages collection
/// followed by `/send`, not the collection itself (which would only store
/// the message).
pub proof fn law_send_url()
    ensures
        send_url_of() == messages_base() + "/send"@,
        send_url_of() != messages_base(),
{
    reveal_strlit("https://gmail.googleapis.com/gmail/v1/users/me/messages/send");
    reveal_strlit("https://gmail.googleapis.com/gmail/v1/users/me/messages");
    reveal_strlit("/send");
    assert(send_url_of() =~= messages_base() + "/send"@);
    assert(send_url_of().len() != messages_base().len());
}

}
