use vstd::prelude::*;

use crate::headers::{HeaderMap, decode_lossy, header_fields, parse_headers, utf8_lossy};
use crate::json::{Json, JsonV, array, jstr, object, push_item, push_member, view_entries, view_items};
use crate::text::{cat, cat3, copy_str, decimal, decimal_string, str_eq};

use lettre::message::header::ContentType;
use lettre::message::Mailbox;
use lettre::Message;

verus! {

/// The IMAP server of iCloud mail.
pub const IMAP_HOST: &'static str = "imap.mail.me.com";

/// The IMAP-over-TLS port.
pub const IMAP_PORT: u16 = 993u16;

/// The SMTP relay of iCloud mail.
pub const SMTP_HOST: &'static str = "smtp.mail.me.com";

/// The credentials of an iCloud account.
pub struct ICloudClient {
    pub email: String,
    pub password: String,
}

impl ICloudClient {
    /// A client that logs in as `email` with the app password `password`.
    pub fn new(email: &str, password: &str) -> (c: ICloudClient)
        ensures
            c.email@ == email@,
            c.password@ == password@,
    {
        ICloudClient { email: copy_str(email), password: copy_str(password) }
    }
}

/// The IMAP mailbox for a folder name of the tools.
pub open spec fn imap_folder_name(folder: Seq<char>) -> Seq<char> {
    if folder == "inbox"@ || folder == ""@ {
        "INBOX"@
    } else if folder == "sent"@ {
        "Sent Messages"@
    } else if folder == "drafts"@ {
        "Drafts"@
    } else if folder == "trash"@ {
        "Deleted Messages"@
    } else if folder == "spam"@ {
        "Junk"@
    } else {
        folder
    }
}

/// The IMAP mailbox for a folder name of the tools; other names pass through.
pub fn imap_folder<'a>(folder: &'a str) -> (r: &'a str)
    ensures
        r@ == imap_folder_name(folder@),
{
    if str_eq(folder, "inbox") || str_eq(folder, "") {
        "INBOX"
    } else if str_eq(folder, "sent") {
        "Sent Messages"
    } else if str_eq(folder, "drafts") {
        "Drafts"
    } else if str_eq(folder, "trash") {
        "Deleted Messages"
    } else if str_eq(folder, "spam") {
        "Junk"
    } else {
        folder
    }
}

// ---------------------------------------------------------------------------
// Splitting a raw message
// ---------------------------------------------------------------------------

/// Where the body starts, scanning from `i`: a CR LF is passed over as one
/// line end, and the body starts after the first line end that is followed
/// at once by another of the same kind (CR LF CR LF, or LF LF).
pub open spec fn body_start_from(raw: Seq<u8>, i: int) -> Option<int>
    decreases raw.len() - i,
{
    if i < 0 || i + 1 >= raw.len() {
        None
    } else if raw[i] == 13u8 && raw[i + 1] == 10u8 {
        if i + 3 < raw.len() && raw[i + 2] == 13u8 && raw[i + 3] == 10u8 {
            Some(i + 4)
        } else {
            body_start_from(raw, i + 2)
        }
    } else if raw[i] == 10u8 {
        if raw[i + 1] == 10u8 {
            Some(i + 2)
        } else {
            body_start_from(raw, i + 1)
        }
    } else {
        body_start_from(raw, i + 1)
    }
}

/// Where the body of a raw message starts.
pub open spec fn body_start(raw: Seq<u8>) -> Option<int> {
    body_start_from(raw, 0)
}

proof fn lemma_body_start_shape(raw: Seq<u8>, i: int)
    requires
        0 <= i,
    ensures
        body_start_from(raw, i) matches Some(p) ==> i + 2 <= p <= raw.len() && ((raw[p - 1] == 10u8
            && raw[p - 2] == 10u8) || (p >= 4 && raw[p - 1] == 10u8 && raw[p - 2] == 13u8 && raw[p
            - 3] == 10u8 && raw[p - 4] == 13u8)),
    decreases raw.len() - i,
{
    if i + 1 < raw.len() {
        if raw[i] == 13u8 && raw[i + 1] == 10u8 {
            if !(i + 3 < raw.len() && raw[i + 2] == 13u8 && raw[i + 3] == 10u8) {
                lemma_body_start_shape(raw, i + 2);
            }
        } else if raw[i] == 10u8 {
            if raw[i + 1] != 10u8 {
                lemma_body_start_shape(raw, i + 1);
            }
        } else {
            lemma_body_start_shape(raw, i + 1);
        }
    }
}

/// The position where the body of a raw message starts, just after the blank
/// line that ends the header block.
pub fn find_body_start(raw: &[u8]) -> (r: Option<usize>)
    ensures
        r matches Some(p) ==> body_start(raw@) == Some(p as int),
        r is None ==> body_start(raw@) is None,
        r matches Some(p) ==> 2 <= p <= raw@.len() && ((raw@[p - 1] == 10u8 && raw@[p - 2]
            == 10u8) || (p >= 4 && raw@[p - 1] == 10u8 && raw@[p - 2] == 13u8 && raw@[p - 3]
            == 10u8 && raw@[p - 4] == 13u8)),
{
    proof {
        lemma_body_start_shape(raw@, 0);
    }
    let n = raw.len();
    let mut i: usize = 0;
    while i < n && i + 1 < n
        invariant
            n == raw@.len(),
            body_start_from(raw@, i as int) == body_start(raw@),
        decreases n - i,
    {
        if raw[i] == 13u8 && raw[i + 1] == 10u8 {
            if n - i > 3 && raw[i + 2] == 13u8 && raw[i + 3] == 10u8 {
                return Some(i + 4);
            }
            i = i + 2;
        } else if raw[i] == 10u8 {
            if raw[i + 1] == 10u8 {
                return Some(i + 2);
            }
            i = i + 1;
        } else {
            i = i + 1;
        }
    }
    None
}

/// A blank line `CR LF CR LF` starts at `j`.
pub open spec fn crlf_blank_at(raw: Seq<u8>, j: int) -> bool {
    0 <= j && j + 3 < raw.len() && raw[j] == 13u8 && raw[j + 1] == 10u8 && raw[j + 2] == 13u8
        && raw[j + 3] == 10u8
}

/// Every line of `raw` ends with `CR LF`: each CR is followed by LF, and each
/// LF follows a CR.
pub open spec fn crlf_lines(raw: Seq<u8>) -> bool {
    forall|i: int|
        0 <= i < raw.len() ==> (#[trigger] raw[i] == 13u8 ==> i + 1 < raw.len() && raw[i + 1]
            == 10u8) && (raw[i] == 10u8 ==> i > 0 && raw[i - 1] == 13u8)
}

proof fn lemma_body_start_crlf(raw: Seq<u8>, i: int)
    requires
        crlf_lines(raw),
        0 <= i,
        i == 0 || raw[i - 1] != 13u8,
    ensures
        body_start_from(raw, i) matches Some(p) ==> crlf_blank_at(raw, p - 4) && p - 4 >= i
            && forall|k: int| i <= k < p - 4 ==> !crlf_blank_at(raw, k),
        body_start_from(raw, i) is None ==> forall|k: int| i <= k ==> !crlf_blank_at(raw, k),
    decreases raw.len() - i,
{
    if i + 1 < raw.len() {
        if raw[i] == 10u8 {
            assert(false);
        } else if raw[i] == 13u8 {
            assert(raw[i + 1] == 10u8);
            if !crlf_blank_at(raw, i) {
                lemma_body_start_crlf(raw, i + 2);
            }
        } else {
            lemma_body_start_crlf(raw, i + 1);
        }
    }
}

/// In a message whose lines all end with `CR LF`, the body starts just after
/// the first blank line, and with no blank line there is no body.
pub proof fn law_body_after_first_blank_line(raw: Seq<u8>)
    requires
        crlf_lines(raw),
    ensures
        body_start(raw) matches Some(p) ==> crlf_blank_at(raw, p - 4) && forall|k: int|
            0 <= k < p - 4 ==> !crlf_blank_at(raw, k),
        body_start(raw) is None ==> forall|k: int| !crlf_blank_at(raw, k),
{
    lemma_body_start_crlf(raw, 0);
}

/// A blank line `LF LF` starts at `j`.
pub open spec fn lf_blank_at(raw: Seq<u8>, j: int) -> bool {
    0 <= j && j + 1 < raw.len() && raw[j] == 10u8 && raw[j + 1] == 10u8
}

proof fn lemma_body_start_lf(raw: Seq<u8>, i: int)
    requires
        forall|k: int| 0 <= k < raw.len() ==> raw[k] != 13u8,
        0 <= i,
    ensures
        body_start_from(raw, i) matches Some(p) ==> lf_blank_at(raw, p - 2) && p - 2 >= i
            && forall|k: int| i <= k < p - 2 ==> !lf_blank_at(raw, k),
        body_start_from(raw, i) is None ==> forall|k: int| i <= k ==> !lf_blank_at(raw, k),
    decreases raw.len() - i,
{
    if i + 1 < raw.len() {
        assert(raw[i] != 13u8);
        if !lf_blank_at(raw, i) {
            lemma_body_start_lf(raw, i + 1);
        }
    }
}

/// In a message without CR, whose lines end with a bare LF, the body starts
/// just after the first empty line, and with no empty line there is no body.
pub proof fn law_body_after_first_empty_line(raw: Seq<u8>)
    requires
        forall|k: int| 0 <= k < raw.len() ==> raw[k] != 13u8,
    ensures
        body_start(raw) matches Some(p) ==> lf_blank_at(raw, p - 2) && forall|k: int|
            0 <= k < p - 2 ==> !lf_blank_at(raw, k),
        body_start(raw) is None ==> forall|k: int| !lf_blank_at(raw, k),
{
    lemma_body_start_lf(raw, 0);
}

/// The header block and the body of a raw message; with no blank line the
/// whole message is header.
pub fn split_headers_body(raw: &[u8]) -> (r: (&[u8], &[u8]))
    ensures
        body_start(raw@) matches Some(p) ==> r.0@ == raw@.take(p) && r.1@ == raw@.skip(p),
        body_start(raw@) is None ==> r.0@ == raw@ && r.1@.len() == 0,
{
    match find_body_start(raw) {
        Some(pos) => raw.split_at(pos),
        None => raw.split_at(raw.len()),
    }
}

// ---------------------------------------------------------------------------
// Choosing messages
// ---------------------------------------------------------------------------

/// The sequence numbers of the newest `max` of `count` messages, oldest first,
/// as a first and last number; `None` when there are none to fetch.
pub open spec fn fetch_window_spec(count: u32, max: usize) -> Option<(u32, u32)> {
    let m = max as u32;
    let start = (if count >= m {
        count - m
    } else {
        0
    }) + 1;
    if start > count {
        None
    } else {
        Some((start as u32, count))
    }
}

/// The sequence numbers of the newest `max` of `count` messages (`max` taken
/// as a `u32`, as the count is one).
pub fn fetch_window(count: u32, max: usize) -> (r: Option<(u32, u32)>)
    requires
        !(count == u32::MAX && max as u32 == 0),
    ensures
        r == fetch_window_spec(count, max),
{
    let m = max as u32;
    let start = count.saturating_sub(m) + 1;
    if start > count {
        None
    } else {
        Some((start, count))
    }
}

/// The IMAP sequence set `first:last`.
pub fn sequence_range(first: u32, last: u32) -> (s: String)
    ensures
        s@ == decimal(first as nat) + ":"@ + decimal(last as nat),
{
    let a = decimal_string(first as u64);
    let b = decimal_string(last as u64);
    cat3(a.as_str(), ":", b.as_str())
}

/// `r` holds the `max` largest of the distinct numbers `all`, largest first.
pub open spec fn is_newest(r: Seq<u32>, all: Seq<u32>, max: nat) -> bool {
    &&& r.len() == (if all.len() < max {
        all.len()
    } else {
        max
    })
    &&& forall|i: int, j: int| 0 <= i < j < r.len() ==> r[i] > r[j]
    &&& forall|i: int| 0 <= i < r.len() ==> all.contains(#[trigger] r[i])
    &&& forall|x: u32| all.contains(x) && !r.contains(x) ==> forall|i: int|
        0 <= i < r.len() ==> x < #[trigger] r[i]
}

/// `x` is below `bound`, or there is no bound.
pub open spec fn below(x: u32, bound: Option<u32>) -> bool {
    match bound {
        Some(b) => x < b,
        None => true,
    }
}

/// The largest number in `all` below `bound` (any number when `bound` is `None`).
fn largest_below(all: &Vec<u32>, bound: Option<u32>) -> (r: Option<u32>)
    ensures
        r matches Some(x) ==> all@.contains(x) && below(x, bound) && forall|y: u32|
            all@.contains(y) && below(y, bound) ==> y <= x,
        r is None ==> forall|y: u32| all@.contains(y) ==> !below(y, bound),
{
    let mut best: Option<u32> = None;
    let n = all.len();
    let mut i: usize = 0;
    while i < n
        invariant
            n == all@.len(),
            i <= n,
            best matches Some(x) ==> all@.contains(x) && below(x, bound),
            forall|j: int|
                0 <= j < i && below(#[trigger] all@[j], bound) ==> (best matches Some(x) && all@[j]
                    <= x),
        decreases n - i,
    {
        let v = all[i];
        let is_below = match bound {
            Some(b) => v < b,
            None => true,
        };
        if is_below {
            match best {
                Some(x) => {
                    if v > x {
                        best = Some(v);
                    }
                },
                None => {
                    best = Some(v);
                },
            }
        }
        i = i + 1;
    }
    proof {
        assert forall|y: u32| all@.contains(y) && below(y, bound) implies (best matches Some(x) && y
            <= x) by {
            let j = choose|j: int| 0 <= j < all@.len() && all@[j] == y;
        }
    }
    best
}

/// The `max` highest of the distinct message numbers `uids`, highest first.
pub fn newest_uids(uids: &Vec<u32>, max: usize) -> (r: Vec<u32>)
    requires
        uids@.no_duplicates(),
    ensures
        is_newest(r@, uids@, max as nat),
{
    let mut r: Vec<u32> = Vec::new();
    let n = uids.len();
    let mut done = false;
    while r.len() < max && !done
        invariant
            n == uids@.len(),
            uids@.no_duplicates(),
            r@.len() <= max,
            forall|i: int, j: int| 0 <= i < j < r@.len() ==> r@[i] > r@[j],
            forall|i: int| 0 <= i < r@.len() ==> uids@.contains(#[trigger] r@[i]),
            forall|x: u32|
                uids@.contains(x) && !r@.contains(x) ==> forall|i: int|
                    0 <= i < r@.len() ==> x < #[trigger] r@[i],
            done ==> forall|x: u32| uids@.contains(x) ==> r@.contains(x),
        decreases max - r@.len(), (if done { 0int } else { 1int }),
    {
        let bound = if r.len() == 0 {
            None
        } else {
            Some(r[r.len() - 1])
        };
        match largest_below(uids, bound) {
            Some(x) => {
                let ghost before = r@;
                r.push(x);
                proof {
                    assert(!before.contains(x)) by {
                        if before.contains(x) {
                            let k = choose|k: int| 0 <= k < before.len() && before[k] == x;
                            if before.len() > 0 {
                                assert(before[k] >= before[before.len() - 1]);
                            }
                        }
                    }
                    assert forall|y: u32| uids@.contains(y) && !r@.contains(y) implies forall|i: int|
                        0 <= i < r@.len() ==> y < #[trigger] r@[i] by {
                        assert(!before.contains(y)) by {
                            if before.contains(y) {
                                let k = choose|k: int| 0 <= k < before.len() && before[k] == y;
                                assert(r@[k] == y);
                            }
                        }
                        assert(y != x) by {
                            assert(r@[r@.len() - 1] == x);
                        }
                        if before.len() > 0 {
                            assert(y < before[before.len() - 1]);
                        }
                        assert(below(y, bound));
                        assert(y <= x);
                        assert forall|i: int| 0 <= i < r@.len() implies y < #[trigger] r@[i] by {
                            if i < before.len() {
                                assert(r@[i] == before[i]);
                            }
                        }
                    }
                    assert forall|i: int, j: int| 0 <= i < j < r@.len() implies r@[i] > r@[j] by {
                        if j == r@.len() - 1 && before.len() > 0 {
                            assert(before[i] >= before[before.len() - 1]);
                        }
                    }
                }
            },
            None => {
                proof {
                    assert forall|x: u32| uids@.contains(x) implies r@.contains(x) by {
                        assert(!below(x, bound));
                        if !r@.contains(x) {
                            assert(r@.len() > 0);
                            assert(x < r@[r@.len() - 1]);
                        }
                    }
                }
                done = true;
            },
        }
    }
    proof {
        if r@.len() < max {
            assert(done);
            assert(r@.no_duplicates()) by {
                assert forall|i: int, j: int| 0 <= i < r@.len() && 0 <= j < r@.len() && i != j implies r@[i]
                    != r@[j] by {
                    if i < j {
                    } else {
                    }
                }
            }
            assert(r@.to_set() =~= uids@.to_set()) by {
                assert forall|x: u32| r@.to_set().contains(x) <==> uids@.to_set().contains(x) by {
                    if r@.to_set().contains(x) {
                        let k = choose|k: int| 0 <= k < r@.len() && r@[k] == x;
                    }
                }
            }
            r@.unique_seq_to_set();
            uids@.unique_seq_to_set();
        } else {
            assert(r@.no_duplicates()) by {
                assert forall|i: int, j: int| 0 <= i < r@.len() && 0 <= j < r@.len() && i != j implies r@[i]
                    != r@[j] by {
                    if i < j {
                    } else {
                    }
                }
            }
            assert(r@.to_set().subset_of(uids@.to_set()));
            r@.unique_seq_to_set();
            uids@.unique_seq_to_set();
            vstd::set_lib::lemma_len_subset(r@.to_set(), uids@.to_set());
        }
    }
    r
}

/// The numbers written in decimal and joined with commas.
pub open spec fn comma_list(s: Seq<u32>) -> Seq<char>
    decreases s.len(),
{
    if s.len() == 0 {
        Seq::empty()
    } else if s.len() == 1 {
        decimal(s[0] as nat)
    } else {
        comma_list(s.drop_last()) + ","@ + decimal(s.last() as nat)
    }
}

/// The IMAP set of the message numbers `uids`.
pub fn uid_set(uids: &Vec<u32>) -> (s: String)
    ensures
        s@ == comma_list(uids@),
{
    let mut s = String::new();
    let n = uids.len();
    for i in 0..n
        invariant
            n == uids@.len(),
            s@ == comma_list(uids@.take(i as int)),
    {
        let d = decimal_string(uids[i] as u64);
        assert(uids@.take(i + 1).drop_last() =~= uids@.take(i as int));
        if i == 0 {
            s.append(d.as_str());
            assert(comma_list(uids@.take(0)) =~= Seq::<char>::empty());
        } else {
            s.append(",");
            s.append(d.as_str());
        }
    }
    assert(uids@.take(n as int) =~= uids@);
    s
}

/// What `format!("{:?}", s)` writes for a string.
pub uninterp spec fn debug_quoted(s: Seq<char>) -> Seq<char>;

/// `s` written as a quoted, escaped literal (`format!("{:?}", s)`); the
/// contract names the result.
#[verifier::external_body]
pub(crate) fn debug_quote(s: &str) -> (r: String)
    ensures
        r@ == debug_quoted(s@),
{
    format!("{:?}", s)
}

/// The IMAP search that matches `query` anywhere in a message.
pub fn text_search(query: &str) -> (r: String)
    ensures
        r@ == "TEXT "@ + debug_quoted(query@),
{
    let q = debug_quote(query);
    cat("TEXT ", q.as_str())
}


// ---------------------------------------------------------------------------
// Answers
// ---------------------------------------------------------------------------

/// What was fetched of one message: its number, its header block, and
/// whether it is marked seen.
pub struct FetchedMessage {
    pub uid: Option<u32>,
    pub header: Option<Vec<u8>>,
    pub seen: bool,
}

/// The header fields of a fetched message (none without a header block).
pub open spec fn fields_of(f: FetchedMessage) -> Map<Seq<char>, Seq<char>> {
    match f.header {
        Some(h) => header_fields(utf8_lossy(h@)),
        None => Map::empty(),
    }
}

/// A field of a map, or the empty string.
pub open spec fn field_or_empty(m: Map<Seq<char>, Seq<char>>, k: Seq<char>) -> Seq<char> {
    if m.contains_key(k) {
        m[k]
    } else {
        Seq::empty()
    }
}

/// The number of a message as JSON (0 when it has none).
pub open spec fn uid_json(uid: Option<u32>) -> JsonV {
    JsonV::Number(
        decimal(
            match uid {
                Some(u) => u as nat,
                None => 0,
            },
        ),
    )
}

/// The entry of a message in a listing.
pub open spec fn list_entry_of(f: FetchedMessage) -> JsonV {
    JsonV::Object(
        seq![
            ("id"@, uid_json(f.uid)),
            ("subject"@, jstr(field_or_empty(fields_of(f), "subject"@))),
            ("from"@, jstr(field_or_empty(fields_of(f), "from"@))),
            ("date"@, jstr(field_or_empty(fields_of(f), "date"@))),
            ("unread"@, JsonV::Bool(!f.seen)),
        ],
    )
}

/// The entry of a message in search results.
pub open spec fn search_entry_of(f: FetchedMessage) -> JsonV {
    JsonV::Object(
        seq![
            ("id"@, uid_json(f.uid)),
            ("subject"@, jstr(field_or_empty(fields_of(f), "subject"@))),
            ("from"@, jstr(field_or_empty(fields_of(f), "from"@))),
            ("date"@, jstr(field_or_empty(fields_of(f), "date"@))),
        ],
    )
}

fn number(n: u32) -> (r: Json)
    ensures
        r@ == JsonV::Number(decimal(n as nat)),
{
    Json::Number(decimal_string(n as u64))
}

fn fields(f: &FetchedMessage) -> (m: HeaderMap)
    ensures
        m.wf(),
        m.view_map() == fields_of(*f),
{
    match &f.header {
        Some(h) => parse_headers(h.as_slice()),
        None => HeaderMap::new(),
    }
}

fn entry(f: &FetchedMessage, with_unread: bool) -> (r: Json)
    ensures
        with_unread ==> r@ == list_entry_of(*f),
        !with_unread ==> r@ == search_entry_of(*f),
{
    let m = fields(f);
    let uid = match f.uid {
        Some(u) => u,
        None => 0,
    };
    let mut es: Vec<(String, Json)> = Vec::new();
    push_member(&mut es, "id", number(uid));
    push_member(&mut es, "subject", Json::Str(m.get_or_empty("subject")));
    push_member(&mut es, "from", Json::Str(m.get_or_empty("from")));
    push_member(&mut es, "date", Json::Str(m.get_or_empty("date")));
    if with_unread {
        push_member(&mut es, "unread", Json::Bool(!f.seen));
        assert(view_entries(es@) =~= list_entry_of(*f)->Object_0);
    } else {
        assert(view_entries(es@) =~= search_entry_of(*f)->Object_0);
    }
    object(es)
}

/// An answer with no messages.
pub fn no_messages() -> (r: Json)
    ensures
        r@ == JsonV::Object(seq![("messages"@, JsonV::Array(Seq::empty()))]),
{
    let items: Vec<Json> = Vec::new();
    assert(view_items(items@) =~= Seq::<JsonV>::empty());
    let mut es: Vec<(String, Json)> = Vec::new();
    push_member(&mut es, "messages", array(items));
    assert(view_entries(es@) =~= seq![("messages"@, JsonV::Array(Seq::<JsonV>::empty()))]);
    object(es)
}

/// The listing answer: the fetched messages, newest (last fetched) first.
pub fn list_result(fetched: &Vec<FetchedMessage>) -> (r: Json)
    ensures
        r@ == JsonV::Object(
            seq![
                ("messages"@, JsonV::Array(
                    fetched@.reverse().map_values(|f: FetchedMessage| list_entry_of(f)),
                )),
            ],
        ),
{
    let ghost want = fetched@.reverse().map_values(|f: FetchedMessage| list_entry_of(f));
    let mut items: Vec<Json> = Vec::new();
    let n = fetched.len();
    let mut i = n;
    while i > 0
        invariant
            n == fetched@.len(),
            i <= n,
            want == fetched@.reverse().map_values(|f: FetchedMessage| list_entry_of(f)),
            view_items(items@) == want.take((n - i) as int),
        decreases i,
    {
        i = i - 1;
        push_item(&mut items, entry(&fetched[i], true));
        assert(want.take((n - i) as int) =~= want.take((n - i - 1) as int).push(
            list_entry_of(fetched@[i as int]),
        ));
    }
    assert(want.take(n as int) =~= want);
    let mut es: Vec<(String, Json)> = Vec::new();
    push_member(&mut es, "messages", array(items));
    assert(view_entries(es@) =~= seq![("messages"@, JsonV::Array(want))]);
    object(es)
}

/// The search answer: the fetched messages in the order they came.
pub fn search_result(fetched: &Vec<FetchedMessage>) -> (r: Json)
    ensures
        r@ == JsonV::Object(
            seq![
                ("messages"@, JsonV::Array(
                    fetched@.map_values(|f: FetchedMessage| search_entry_of(f)),
                )),
            ],
        ),
{
    let ghost want = fetched@.map_values(|f: FetchedMessage| search_entry_of(f));
    let mut items: Vec<Json> = Vec::new();
    let n = fetched.len();
    for i in 0..n
        invariant
            n == fetched@.len(),
            want == fetched@.map_values(|f: FetchedMessage| search_entry_of(f)),
            view_items(items@) == want.take(i as int),
    {
        push_item(&mut items, entry(&fetched[i], false));
        assert(want.take(i + 1) =~= want.take(i as int).push(search_entry_of(fetched@[i as int])));
    }
    assert(want.take(n as int) =~= want);
    let mut es: Vec<(String, Json)> = Vec::new();
    push_member(&mut es, "messages", array(items));
    assert(view_entries(es@) =~= seq![("messages"@, JsonV::Array(want))]);
    object(es)
}

/// The header block and body of a raw message.
pub open spec fn split_of(raw: Seq<u8>) -> (Seq<u8>, Seq<u8>) {
    match body_start(raw) {
        Some(p) => (raw.take(p), raw.skip(p)),
        None => (raw, Seq::empty()),
    }
}

/// The full view of a raw message.
pub open spec fn message_view_of(uid: u32, raw: Seq<u8>) -> JsonV {
    let m = header_fields(utf8_lossy(split_of(raw).0));
    JsonV::Object(
        seq![
            ("id"@, JsonV::Number(decimal(uid as nat))),
            ("subject"@, jstr(field_or_empty(m, "subject"@))),
            ("from"@, jstr(field_or_empty(m, "from"@))),
            ("to"@, jstr(field_or_empty(m, "to"@))),
            ("date"@, jstr(field_or_empty(m, "date"@))),
            ("body"@, jstr(utf8_lossy(split_of(raw).1))),
        ],
    )
}

/// The full view of the raw message `raw` numbered `uid`.
pub fn message_view(uid: u32, raw: &[u8]) -> (r: Json)
    ensures
        r@ == message_view_of(uid, raw@),
{
    let (head, body) = split_headers_body(raw);
    assert(head@ == split_of(raw@).0);
    assert(body@ =~= split_of(raw@).1);
    let m = parse_headers(head);
    let mut es: Vec<(String, Json)> = Vec::new();
    push_member(&mut es, "id", number(uid));
    push_member(&mut es, "subject", Json::Str(m.get_or_empty("subject")));
    push_member(&mut es, "from", Json::Str(m.get_or_empty("from")));
    push_member(&mut es, "to", Json::Str(m.get_or_empty("to")));
    push_member(&mut es, "date", Json::Str(m.get_or_empty("date")));
    push_member(&mut es, "body", Json::Str(decode_lossy(body)));
    assert(view_entries(es@) =~= message_view_of(uid, raw@)->Object_0);
    object(es)
}

/// The error for a message number that the server does not have.
pub fn missing_message(uid: u32) -> (m: String)
    ensures
        m@ == "message "@ + decimal(uid as nat) + " not found"@,
{
    let d = decimal_string(uid as u64);
    cat3("message ", d.as_str(), " not found")
}


// ---------------------------------------------------------------------------
// Building a message to send over SMTP
// ---------------------------------------------------------------------------

#[verifier::external_type_specification]
#[verifier::external_body]
pub struct ExMailbox(lettre::message::Mailbox);

#[verifier::external_type_specification]
#[verifier::external_body]
pub struct ExMessage(lettre::Message);

/// Why `lettre` refuses `s` as a mailbox (the text of its `AddressError`),
/// or `None` when it accepts it.
pub uninterp spec fn mailbox_error(s: Seq<char>) -> Option<Seq<char>>;

/// Parses a mailbox such as `Name <user@example.com>` or `user@example.com`
/// (`str::parse::<lettre::message::Mailbox>`). The contract names when it is
/// refused and with which message; the parsed mailbox itself is opaque.
#[verifier::external_body]
fn parse_mailbox(s: &str) -> (r: Result<Mailbox, String>)
    ensures
        r is Ok <==> mailbox_error(s@) is None,
        r matches Err(e) ==> mailbox_error(s@) == Some(e@),
{
    s.parse::<Mailbox>().map_err(|e| e.to_string())
}

/// A plain-text message from `from` to `to` (`lettre::Message::builder()`
/// with those headers, the subject, a plain-text content type, and `body`).
/// The builder fails only without a `From` or a recipient, and both are set,
/// so the result is always `Some`. The message itself is opaque here: it
/// also carries the current date.
#[verifier::external_body]
fn plain_message(from: Mailbox, to: Mailbox, subject: &str, body: &str) -> (r: Option<Message>)
    ensures
        r is Some,
{
    Message::builder().from(from).to(to).subject(subject).header(ContentType::TEXT_PLAIN).body(
        body.to_string(),
    ).ok()
}

/// The same message with a copy to `cc` (the builder's `cc` header added);
/// always `Some`, for the same reason.
#[verifier::external_body]
fn plain_message_cc(from: Mailbox, to: Mailbox, cc: Mailbox, subject: &str, body: &str) -> (r:
    Option<Message>)
    ensures
        r is Some,
{
    Message::builder().from(from).to(to).subject(subject).header(ContentType::TEXT_PLAIN).cc(
        cc,
    ).body(body.to_string()).ok()
}

/// The first address of a message that is refused, in the order sender,
/// recipient, copy, with the refusal's message.
pub open spec fn message_error_of(from: Seq<char>, to: Seq<char>, cc: Option<Seq<char>>) -> Option<
    Seq<char>,
> {
    match mailbox_error(from) {
        Some(e) => Some(e),
        None => match mailbox_error(to) {
            Some(e) => Some(e),
            None => match cc {
                Some(c) => mailbox_error(c),
                None => None,
            },
        },
    }
}

/// The plain-text message that the iCloud account `from` sends to `to`, with
/// an optional copy to `cc`. It fails, with the message of the first refused
/// address, exactly when one of the addresses is not a valid mailbox.
pub fn icloud_message(from: &str, to: &str, subject: &str, body: &str, cc: Option<&str>) -> (r:
    Result<Message, String>)
    ensures
        r is Ok <==> message_error_of(
            from@,
            to@,
            match cc {
                Some(c) => Some(c@),
                None => None,
            },
        ) is None,
        r matches Err(e) ==> message_error_of(
            from@,
            to@,
            match cc {
                Some(c) => Some(c@),
                None => None,
            },
        ) == Some(e@),
{
    let from_box = match parse_mailbox(from) {
        Ok(m) => m,
        Err(e) => {
            return Err(e);
        },
    };
    let to_box = match parse_mailbox(to) {
        Ok(m) => m,
        Err(e) => {
            return Err(e);
        },
    };
    let cc_box = match cc {
        Some(c) => match parse_mailbox(c) {
            Ok(m) => Some(m),
            Err(e) => {
                return Err(e);
            },
        },
        None => None,
    };
    let message = match cc_box {
        Some(c) => plain_message_cc(from_box, to_box, c, subject, body),
        None => plain_message(from_box, to_box, subject, body),
    };
    match message {
        Some(m) => Ok(m),
        None => Err(String::new()),
    }
}

}
