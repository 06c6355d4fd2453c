use vstd::prelude::*;
use vstd::utf8::encode_utf8;
use vstd::slice::slice_to_vec;

use crate::codec::{
    b64_len, b64url, b64url_encode, is_b64url_char, percent_encoded, random_bytes, sha256,
    sha256_digest, url_encode,
};
use crate::config::{Account, AppState, PendingAuth, Provider, pending_map};
use crate::headers::{lemma_first_index_bounds, strip_cr, text_lines};
use crate::json::{Json, member, str_of};
use crate::text::{
    cat, cat3, chars_of, copy_str, decimal, decimal_string, find_from, first_index, is_whitespace,
    is_ws, lemma_first_index, lemma_trim_start_skip, str_eq, string_of, trim_start,
};

verus! {

/// Why an OAuth step was refused.
#[derive(Debug)]
pub enum OAuthError {
    /// iCloud accounts log in with app passwords.
    ICloudUsesAppPasswords,
    /// The account has no refresh token.
    NoRefreshToken(String),
    /// iCloud accounts have no OAuth tokens to refresh.
    ICloudHasNoTokens,
    /// There is no user-info endpoint for the provider.
    NotApplicable,
}

impl OAuthError {
    /// The text of the error.
    pub fn message(&self) -> (s: String)
        ensures
            s@ == oauth_error_text(*self),
    {
        match self {
            OAuthError::ICloudUsesAppPasswords => copy_str("iCloud uses app passwords, not OAuth"),
            OAuthError::NoRefreshToken(id) => cat3(
                "no refresh token for account '",
                id.as_str(),
                "'",
            ),
            OAuthError::ICloudHasNoTokens => copy_str("iCloud does not use OAuth tokens"),
            OAuthError::NotApplicable => copy_str("not applicable"),
        }
    }
}

/// The text of an error.
pub open spec fn oauth_error_text(e: OAuthError) -> Seq<char> {
    match e {
        OAuthError::ICloudUsesAppPasswords => "iCloud uses app passwords, not OAuth"@,
        OAuthError::NoRefreshToken(id) => "no refresh token for account '"@ + id@ + "'"@,
        OAuthError::ICloudHasNoTokens => "iCloud does not use OAuth tokens"@,
        OAuthError::NotApplicable => "not applicable"@,
    }
}

// ---------------------------------------------------------------------------
// PKCE
// ---------------------------------------------------------------------------

/// A random string of `len` URL-safe base64 characters: the start of the
/// encoding of `2 * len` random bytes.
pub fn random_string(len: usize) -> (s: String)
    requires
        len <= usize::MAX / 4,
    ensures
        s@.len() == len,
        forall|i: int| 0 <= i < len ==> is_b64url_char(#[trigger] s@[i]),
        exists|b: Seq<u8>| b.len() == 2 * len && s@ == #[trigger] b64url(b).take(len as int),
{
    let bytes = random_bytes(len * 2);
    let encoded = b64url_encode(bytes.as_slice());
    let cs = chars_of(encoded.as_str());
    assert(cs@.len() >= len) by {
        assert(b64_len((2 * len) as nat) >= len);
    }
    let s = string_of(&cs[0..len]);
    proof {
        assert(s@ =~= b64url(bytes@).take(len as int));
        assert forall|i: int| 0 <= i < len implies is_b64url_char(#[trigger] s@[i]) by {
            assert(s@[i] == cs@[i]);
        }
    }
    s
}

/// The PKCE challenge for a verifier: its SHA-256 digest in URL-safe base64.
pub open spec fn challenge_of(verifier: Seq<u8>) -> Seq<char> {
    b64url(sha256(verifier))
}

/// The PKCE challenge of `verifier` (method S256).
pub fn pkce_challenge(verifier: &str) -> (s: String)
    ensures
        s@ == challenge_of(encode_utf8(verifier@)),
        s@.len() == 43,
{
    let hash = sha256_digest(verifier.as_bytes());
    b64url_encode(hash.as_slice())
}

// ---------------------------------------------------------------------------
// The authorization request
// ---------------------------------------------------------------------------

/// The scopes asked of each provider; iCloud has none.
pub open spec fn scope_of(p: Provider) -> Option<Seq<char>> {
    match p {
        Provider::Gmail => Some(
            "https://www.googleapis.com/auth/gmail.modify https://www.googleapis.com/auth/userinfo.email"@,
        ),
        Provider::Outlook => Some(
            "https://graph.microsoft.com/Mail.ReadWrite https://graph.microsoft.com/Mail.Send https://graph.microsoft.com/User.Read offline_access"@,
        ),
        Provider::ICloud => None,
    }
}

/// The scopes asked of `p`, if it uses OAuth.
pub fn oauth_scope(p: Provider) -> (r: Option<&'static str>)
    ensures
        r matches Some(s) ==> scope_of(p) == Some(s@),
        r is None ==> scope_of(p) is None,
{
    match p {
        Provider::Gmail => Some(
            "https://www.googleapis.com/auth/gmail.modify https://www.googleapis.com/auth/userinfo.email",
        ),
        Provider::Outlook => Some(
            "https://graph.microsoft.com/Mail.ReadWrite https://graph.microsoft.com/Mail.Send https://graph.microsoft.com/User.Read offline_access",
        ),
        Provider::ICloud => None,
    }
}

/// The local address the browser is sent back to.
pub open spec fn redirect_of(port: u16) -> Seq<char> {
    "http://127.0.0.1:"@ + decimal(port as nat) + "/callback"@
}

/// The address the browser is sent back to, on the local port `port`.
pub fn redirect_uri(port: u16) -> (s: String)
    ensures
        s@ == redirect_of(port),
{
    let p = decimal_string(port as u64);
    cat3("http://127.0.0.1:", p.as_str(), "/callback")
}

/// The URL-encoding of a string.
pub open spec fn enc(s: Seq<char>) -> Seq<char> {
    percent_encoded(vstd::utf8::encode_utf8(s))
}

/// The authorization URL the user opens.
pub open spec fn auth_url_of(
    p: Provider,
    client_id: Seq<char>,
    redirect: Seq<char>,
    challenge: Seq<char>,
) -> Option<Seq<char>> {
    match p {
        Provider::Gmail => Some(
            "https://accounts.google.com/o/oauth2/v2/auth?client_id="@ + enc(client_id)
                + "&redirect_uri="@ + enc(redirect) + "&response_type=code&scope="@ + enc(
                scope_of(p)->0,
            ) + "&code_challenge="@ + challenge
                + "&code_challenge_method=S256&access_type=offline&prompt=consent"@,
        ),
        Provider::Outlook => Some(
            "https://login.microsoftonline.com/common/oauth2/v2.0/authorize?client_id="@ + enc(
                client_id,
            ) + "&redirect_uri="@ + enc(redirect) + "&response_type=code&scope="@ + enc(
                scope_of(p)->0,
            ) + "&code_challenge="@ + challenge + "&code_challenge_method=S256"@,
        ),
        Provider::ICloud => None,
    }
}

/// The authorization URL for `p`; `None` for iCloud.
pub fn authorize_url(p: Provider, client_id: &str, redirect: &str, challenge: &str) -> (r: Option<
    String,
>)
    ensures
        r matches Some(u) ==> auth_url_of(p, client_id@, redirect@, challenge@) == Some(u@),
        r is None ==> auth_url_of(p, client_id@, redirect@, challenge@) is None,
{
    let scope = match oauth_scope(p) {
        Some(s) => s,
        None => {
            return None;
        },
    };
    let base = match p {
        Provider::Gmail => "https://accounts.google.com/o/oauth2/v2/auth?client_id=",
        _ => "https://login.microsoftonline.com/common/oauth2/v2.0/authorize?client_id=",
    };
    let tail = match p {
        Provider::Gmail => "&code_challenge_method=S256&access_type=offline&prompt=consent",
        _ => "&code_challenge_method=S256",
    };
    let mut u = copy_str(base);
    u.append(url_encode(client_id).as_str());
    u.append("&redirect_uri=");
    u.append(url_encode(redirect).as_str());
    u.append("&response_type=code&scope=");
    u.append(url_encode(scope).as_str());
    u.append("&code_challenge=");
    u.append(challenge);
    u.append(tail);
    Some(u)
}

/// What an authorization start hands back: the URL to open.
pub struct AuthStartResult {
    pub url: String,
}

/// Records the authorization for `account_id` with the verifier
/// `code_verifier`, and gives the URL to open; the browser is sent back to
/// the local `port`. Refused for iCloud, with the state left as it was.
pub fn begin_oauth(
    state: &mut AppState,
    provider: Provider,
    account_id: String,
    client_id: String,
    client_secret: Option<String>,
    code_verifier: String,
    port: u16,
) -> (r: Result<AuthStartResult, OAuthError>)
    requires
        old(state).wf(),
    ensures
        final(state).wf(),
        final(state).accounts() == old(state).accounts(),
        provider == Provider::ICloud ==> r == Err::<AuthStartResult, OAuthError>(
            OAuthError::ICloudUsesAppPasswords,
        ) && final(state).pending() == old(state).pending(),
        provider != Provider::ICloud ==> (r matches Ok(res) && Some(res.url@) == auth_url_of(
            provider,
            client_id@,
            redirect_of(port),
            challenge_of(encode_utf8(code_verifier@)),
        )),
        provider != Provider::ICloud ==> pending_map(final(state).pending()) == pending_map(
            old(state).pending(),
        ).insert(
            account_id@,
            PendingAuth {
                account_id,
                code_verifier,
                redirect_uri: pending_map(final(state).pending())[account_id@].redirect_uri,
                provider,
                client_id,
                client_secret,
            },
        ) && pending_map(final(state).pending())[account_id@].redirect_uri@ == redirect_of(port),
{
    let challenge = pkce_challenge(code_verifier.as_str());
    let redirect = redirect_uri(port);
    let url = match authorize_url(provider, client_id.as_str(), redirect.as_str(), challenge.as_str()) {
        Some(u) => u,
        None => {
            return Err(OAuthError::ICloudUsesAppPasswords);
        },
    };
    let key = account_id.clone();
    let auth = PendingAuth {
        account_id,
        code_verifier,
        redirect_uri: redirect,
        provider,
        client_id,
        client_secret,
    };
    state.insert_pending_auth(auth);
    Ok(AuthStartResult { url })
}

/// Starts an authorization: draws a verifier of 64 random URL-safe
/// characters, records it for `account_id`, and gives the URL to open.
pub fn start_oauth(
    state: &mut AppState,
    provider: Provider,
    account_id: String,
    client_id: String,
    client_secret: Option<String>,
    port: u16,
) -> (r: Result<AuthStartResult, OAuthError>)
    requires
        old(state).wf(),
    ensures
        final(state).wf(),
        final(state).accounts() == old(state).accounts(),
        provider == Provider::ICloud ==> r == Err::<AuthStartResult, OAuthError>(
            OAuthError::ICloudUsesAppPasswords,
        ) && final(state).pending() == old(state).pending(),
        provider != Provider::ICloud ==> r is Ok && pending_map(final(state).pending()).contains_key(
            account_id@,
        ) && ({
            let p = pending_map(final(state).pending())[account_id@];
            &&& p.account_id@ == account_id@
            &&& p.provider == provider
            &&& p.client_id@ == client_id@
            &&& p.client_secret == client_secret
            &&& p.redirect_uri@ == redirect_of(port)
            &&& p.code_verifier@.len() == 64
            &&& forall|i: int|
                0 <= i < 64 ==> is_b64url_char(#[trigger] p.code_verifier@[i])
            &&& Some(r->Ok_0.url@) == auth_url_of(
                provider,
                client_id@,
                redirect_of(port),
                challenge_of(encode_utf8(p.code_verifier@)),
            )
        }),
        provider != Provider::ICloud ==> forall|id: Seq<char>|
            id != account_id@ ==> #[trigger] pending_map(final(state).pending()).contains_key(id)
                == pending_map(old(state).pending()).contains_key(id) && (pending_map(
                old(state).pending(),
            ).contains_key(id) ==> pending_map(final(state).pending())[id] == pending_map(
                old(state).pending(),
            )[id]),
{
    let code_verifier = random_string(64);
    begin_oauth(state, provider, account_id, client_id, client_secret, code_verifier, port)
}

// ---------------------------------------------------------------------------
// The callback
// ---------------------------------------------------------------------------

/// The length of the run of non-white-space characters that `s` starts with.
pub open spec fn word_len(s: Seq<char>) -> int
    decreases s.len(),
{
    if s.len() == 0 || is_ws(s[0]) {
        0
    } else {
        1 + word_len(s.drop_first())
    }
}

proof fn lemma_word_len(s: Seq<char>, k: int)
    requires
        0 <= k <= s.len(),
        forall|j: int| 0 <= j < k ==> !is_ws(s[j]),
        k == s.len() || is_ws(s[k]),
    ensures
        word_len(s) == k,
    decreases k,
{
    if k > 0 {
        lemma_word_len(s.drop_first(), k - 1);
    }
}

pub proof fn lemma_trim_start_len(s: Seq<char>)
    ensures
        trim_start(s).len() <= s.len(),
        trim_start(s).len() > 0 ==> !is_ws(trim_start(s)[0]),
    decreases s.len(),
{
    if s.len() > 0 && is_ws(s[0]) {
        lemma_trim_start_len(s.drop_first());
    }
}

/// The words of `s` between runs of white space (`str::split_whitespace`).
pub open spec fn words(s: Seq<char>) -> Seq<Seq<char>>
    decreases s.len(),
{
    let t = trim_start(s);
    if t.len() == 0 {
        Seq::empty()
    } else {
        proof {
            lemma_trim_start_len(s);
            lemma_word_len_pos(t);
        }
        seq![t.take(word_len(t))] + words(t.skip(word_len(t)))
    }
}

pub proof fn lemma_word_len_pos(t: Seq<char>)
    requires
        t.len() > 0,
        !is_ws(t[0]),
    ensures
        1 <= word_len(t) <= t.len(),
{
    lemma_word_len_bound(t.drop_first());
}

pub proof fn lemma_word_len_bound(t: Seq<char>)
    ensures
        0 <= word_len(t) <= t.len(),
    decreases t.len(),
{
    if t.len() > 0 && !is_ws(t[0]) {
        lemma_word_len_bound(t.drop_first());
    }
}

/// The pieces of `s` between the occurrences of `c` (`str::split`).
pub open spec fn split_on(s: Seq<char>, c: char) -> Seq<Seq<char>>
    decreases s.len(),
{
    proof {
        lemma_first_index_bounds(s, c);
    }
    match first_index(s, c) {
        Some(i) => seq![s.take(i)] + split_on(s.skip(i + 1), c),
        None => seq![s],
    }
}

/// The value of a `code=...` parameter: the text after its first `=`.
pub open spec fn code_param(param: Seq<char>) -> Option<Seq<char>> {
    match first_index(param, '=') {
        Some(i) => if param.take(i) == "code"@ {
            Some(param.skip(i + 1))
        } else {
            None
        },
        None => None,
    }
}

/// The value of the first `code` parameter among `params`.
pub open spec fn first_code(params: Seq<Seq<char>>) -> Option<Seq<char>>
    decreases params.len(),
{
    if params.len() == 0 {
        None
    } else {
        match code_param(params[0]) {
            Some(v) => Some(v),
            None => first_code(params.drop_first()),
        }
    }
}

/// The authorization code in the request the browser sends back: the request
/// target is the second word of the first line, the query is what follows its
/// first `?` up to any next `?`, and the code is the value of its first
/// `code` parameter.
pub open spec fn auth_code(request: Seq<char>) -> Option<Seq<char>> {
    let lines = text_lines(request);
    if lines.len() == 0 {
        None
    } else {
        let ws = words(lines[0]);
        if ws.len() < 2 {
            None
        } else {
            let parts = split_on(ws[1], '?');
            if parts.len() < 2 {
                None
            } else {
                first_code(split_on(parts[1], '&'))
            }
        }
    }
}

/// The pieces of `cs` between the occurrences of `c`.
pub fn split_chars(cs: &[char], c: char) -> (r: Vec<Vec<char>>)
    ensures
        r@.len() == split_on(cs@, c).len(),
        forall|i: int| 0 <= i < r@.len() ==> #[trigger] r@[i]@ == split_on(cs@, c)[i],
{
    let mut r: Vec<Vec<char>> = Vec::new();
    let ghost mut acc: Seq<Seq<char>> = Seq::empty();
    let n = cs.len();
    let mut p: usize = 0;
    let mut done = false;
    assert(cs@.skip(0) =~= cs@);
    while !done
        invariant
            n == cs@.len(),
            p <= n,
            r@.len() == acc.len(),
            forall|i: int| 0 <= i < r@.len() ==> #[trigger] r@[i]@ == acc[i],
            !done ==> split_on(cs@, c) == acc + split_on(cs@.skip(p as int), c),
            done ==> split_on(cs@, c) == acc,
        decreases n - p, (if done { 0int } else { 1int }),
    {
        let ghost rest = cs@.skip(p as int);
        proof {
            lemma_first_index_bounds(rest, c);
        }
        match find_from(cs, p, c) {
            Some(i) => {
                let piece = slice_to_vec(&cs[p..i]);
                proof {
                    assert(piece@ =~= rest.take(i - p));
                    assert(rest.skip(i - p + 1) =~= cs@.skip(i + 1));
                    assert(acc + split_on(rest, c) =~= acc.push(piece@) + split_on(
                        cs@.skip(i + 1),
                        c,
                    ));
                    acc = acc.push(piece@);
                }
                r.push(piece);
                p = i + 1;
            },
            None => {
                let piece = slice_to_vec(&cs[p..n]);
                proof {
                    assert(piece@ =~= rest);
                    assert(acc + split_on(rest, c) =~= acc.push(piece@));
                    acc = acc.push(piece@);
                }
                r.push(piece);
                done = true;
            },
        }
    }
    r
}

/// The words of `cs` between runs of white space.
pub fn words_of(cs: &[char]) -> (r: Vec<Vec<char>>)
    ensures
        r@.len() == words(cs@).len(),
        forall|i: int| 0 <= i < r@.len() ==> #[trigger] r@[i]@ == words(cs@)[i],
{
    let mut r: Vec<Vec<char>> = Vec::new();
    let ghost mut acc: Seq<Seq<char>> = Seq::empty();
    let n = cs.len();
    let mut p: usize = 0;
    assert(cs@.skip(0) =~= cs@);
    while p < n
        invariant
            n == cs@.len(),
            p <= n,
            r@.len() == acc.len(),
            forall|i: int| 0 <= i < r@.len() ==> #[trigger] r@[i]@ == acc[i],
            words(cs@) == acc + words(cs@.skip(p as int)),
        decreases n - p,
    {
        let ghost rest = cs@.skip(p as int);
        let mut i = p;
        while i < n && is_whitespace(cs[i])
            invariant
                n == cs@.len(),
                p <= i <= n,
                forall|j: int| p <= j < i ==> is_ws(cs@[j]),
            decreases n - i,
        {
            i = i + 1;
        }
        proof {
            lemma_trim_start_skip(rest, i - p);
            assert(rest.skip(i - p) =~= cs@.skip(i as int));
            if i < n {
                assert(cs@.skip(i as int)[0] == cs@[i as int]);
                assert(trim_start(cs@.skip(i as int)) == cs@.skip(i as int));
            } else {
                assert(cs@.skip(i as int).len() == 0);
            }
        }
        if i == n {
            proof {
                assert(words(rest) =~= Seq::<Seq<char>>::empty());
                assert(cs@.skip(n as int).len() == 0);
                assert(words(cs@.skip(n as int)) =~= Seq::<Seq<char>>::empty());
            }
            p = n;
        } else {
            let mut j = i;
            while j < n && !is_whitespace(cs[j])
                invariant
                    n == cs@.len(),
                    i <= j <= n,
                    forall|k: int| i <= k < j ==> !is_ws(cs@[k]),
                decreases n - j,
            {
                j = j + 1;
            }
            let word = slice_to_vec(&cs[i..j]);
            proof {
                let t = cs@.skip(i as int);
                lemma_word_len(t, j - i);
                assert(word@ =~= t.take(j - i));
                assert(t.skip(j - i) =~= cs@.skip(j as int));
                assert(words(rest) == seq![word@] + words(cs@.skip(j as int)));
                assert(acc + words(rest) =~= acc.push(word@) + words(cs@.skip(j as int)));
                acc = acc.push(word@);
            }
            r.push(word);
            p = j;
        }
    }
    proof {
        assert(cs@.skip(n as int).len() == 0);
        assert(words(cs@.skip(n as int)) =~= Seq::<Seq<char>>::empty());
        assert(acc + Seq::<Seq<char>>::empty() =~= acc);
    }
    r
}

fn code_of_param(param: &Vec<char>) -> (r: Option<String>)
    ensures
        r matches Some(v) ==> code_param(param@) == Some(v@),
        r is None ==> code_param(param@) is None,
{
    match find_from(param.as_slice(), 0, '=') {
        Some(i) => {
            assert(param@.skip(0) =~= param@);
            let plen = param.len();
            assert(i < plen);
            let key = string_of(&param[0..i]);
            if str_eq(key.as_str(), "code") {
                assert(param@.skip(i + 1) =~= param@.subrange(i + 1, param@.len() as int));
                Some(string_of(&param[i + 1..plen]))
            } else {
                None
            }
        },
        None => {
            assert(param@.skip(0) =~= param@);
            None
        },
    }
}

/// The authorization code in the request the browser sends back, if any.
pub fn extract_auth_code(request: &str) -> (r: Option<String>)
    ensures
        r matches Some(c) ==> auth_code(request@) == Some(c@),
        r is None ==> auth_code(request@) is None,
{
    let cs = chars_of(request);
    let n = cs.len();
    if n == 0 {
        return None;
    }
    proof {
        lemma_first_index_bounds(cs@, '\n');
        assert(cs@.skip(0) =~= cs@);
    }
    let line: Vec<char> = match find_from(cs.as_slice(), 0, '\n') {
        Some(i) => {
            if i > 0 && cs[i - 1] == '\r' {
                let l = slice_to_vec(&cs[0..i - 1]);
                assert(l@ =~= strip_cr(cs@.take(i as int)));
                l
            } else {
                let l = slice_to_vec(&cs[0..i]);
                assert(l@ =~= strip_cr(cs@.take(i as int)));
                l
            }
        },
        None => {
            let l = slice_to_vec(&cs[0..n]);
            assert(l@ =~= cs@);
            l
        },
    };
    assert(text_lines(cs@)[0] == line@);
    let ws = words_of(line.as_slice());
    if ws.len() < 2 {
        return None;
    }
    let parts = split_chars(ws[1].as_slice(), '?');
    if parts.len() < 2 {
        return None;
    }
    let params = split_chars(parts[1].as_slice(), '&');
    let ghost ps = split_on(parts[1]@, '&');
    proof {
        assert(request@ == cs@);
        assert(ws@[1]@ == words(line@)[1]);
        assert(parts@[1]@ == split_on(ws@[1]@, '?')[1]);
        assert(auth_code(request@) == first_code(ps));
        assert(ps.skip(0) =~= ps);
    }
    let m = params.len();
    for k in 0..m
        invariant
            m == params@.len(),
            m == ps.len(),
            forall|i: int| 0 <= i < m ==> #[trigger] params@[i]@ == ps[i],
            first_code(ps) == first_code(ps.skip(k as int)),
            auth_code(request@) == first_code(ps),
    {
        let ghost rest = ps.skip(k as int);
        proof {
            assert(rest[0] == ps[k as int]);
            assert(rest.drop_first() =~= ps.skip(k + 1));
        }
        match code_of_param(&params[k]) {
            Some(v) => {
                assert(first_code(rest) == Some(v@));
                return Some(v);
            },
            None => {},
        }
    }
    proof {
        assert(ps.skip(m as int).len() == 0);
    }
    None
}

/// The page shown in the browser after the callback.
pub fn callback_page(found_code: bool) -> (s: &'static str)
    ensures
        found_code ==> s@
            == "<html><body><h1>Authentication successful!</h1><p>You can close this tab.</p></body></html>"@,
        !found_code ==> s@
            == "<html><body><h1>Authentication failed.</h1><p>No code received.</p></body></html>"@,
{
    if found_code {
        "<html><body><h1>Authentication successful!</h1><p>You can close this tab.</p></body></html>"
    } else {
        "<html><body><h1>Authentication failed.</h1><p>No code received.</p></body></html>"
    }
}

/// The HTTP response that carries the page `html`.
pub open spec fn http_response_of(html: &str) -> Seq<char> {
    "HTTP/1.1 200 OK\r\nContent-Type: text/html\r\nContent-Length: "@ + decimal(
        html.len() as nat,
    ) + "\r\nConnection: close\r\n\r\n"@ + html@
}

/// The HTTP response that carries the page `html`, with its length in bytes.
pub fn http_response(html: &str) -> (s: String)
    ensures
        s@ == http_response_of(html),
{
    let len = decimal_string(html.len() as u64);
    let mut s = copy_str("HTTP/1.1 200 OK\r\nContent-Type: text/html\r\nContent-Length: ");
    s.append(len.as_str());
    s.append("\r\nConnection: close\r\n\r\n");
    s.append(html);
    s
}

// ---------------------------------------------------------------------------
// Tokens
// ---------------------------------------------------------------------------

/// What a token endpoint answers.
#[derive(Debug)]
pub struct TokenResponse {
    pub access_token: String,
    pub refresh_token: Option<String>,
    pub expires_in: Option<u64>,
}

/// The token endpoint of each provider; iCloud has none.
pub open spec fn token_url_of(p: Provider) -> Option<Seq<char>> {
    match p {
        Provider::Gmail => Some("https://oauth2.googleapis.com/token"@),
        Provider::Outlook => Some("https://login.microsoftonline.com/common/oauth2/v2.0/token"@),
        Provider::ICloud => None,
    }
}

/// The token endpoint of `p`, if it uses OAuth.
pub fn token_url(p: Provider) -> (r: Option<&'static str>)
    ensures
        r matches Some(s) ==> token_url_of(p) == Some(s@),
        r is None ==> token_url_of(p) is None,
{
    match p {
        Provider::Gmail => Some("https://oauth2.googleapis.com/token"),
        Provider::Outlook => Some("https://login.microsoftonline.com/common/oauth2/v2.0/token"),
        Provider::ICloud => None,
    }
}

/// A form field.
pub open spec fn field(k: Seq<char>, v: Seq<char>) -> (Seq<char>, Seq<char>) {
    (k, v)
}

/// The fields of a form, as character sequences.
pub open spec fn form_view(f: Seq<(String, String)>) -> Seq<(Seq<char>, Seq<char>)> {
    f.map_values(|e: (String, String)| (e.0@, e.1@))
}

fn push_field(f: &mut Vec<(String, String)>, k: &str, v: &str)
    ensures
        form_view(final(f)@) == form_view(old(f)@).push((k@, v@)),
{
    f.push((copy_str(k), copy_str(v)));
    assert(form_view(f@) =~= form_view(old(f)@).push((k@, v@)));
}

/// The form that trades an authorization code for tokens.
pub open spec fn exchange_form_of(
    client_id: Seq<char>,
    client_secret: Option<Seq<char>>,
    code: Seq<char>,
    redirect: Seq<char>,
    verifier: Seq<char>,
) -> Seq<(Seq<char>, Seq<char>)> {
    let base = seq![
        field("grant_type"@, "authorization_code"@),
        field("client_id"@, client_id),
        field("code"@, code),
        field("redirect_uri"@, redirect),
        field("code_verifier"@, verifier),
    ];
    match client_secret {
        Some(s) => base.push(field("client_secret"@, s)),
        None => base,
    }
}

/// The view of an optional string.
pub open spec fn opt_view(o: Option<String>) -> Option<Seq<char>> {
    match o {
        Some(s) => Some(s@),
        None => None,
    }
}

/// The form that trades the code of a pending authorization for tokens.
pub fn exchange_form(pending: &PendingAuth, code: &str) -> (f: Vec<(String, String)>)
    ensures
        form_view(f@) == exchange_form_of(
            pending.client_id@,
            opt_view(pending.client_secret),
            code@,
            pending.redirect_uri@,
            pending.code_verifier@,
        ),
{
    let mut f: Vec<(String, String)> = Vec::new();
    push_field(&mut f, "grant_type", "authorization_code");
    push_field(&mut f, "client_id", pending.client_id.as_str());
    push_field(&mut f, "code", code);
    push_field(&mut f, "redirect_uri", pending.redirect_uri.as_str());
    push_field(&mut f, "code_verifier", pending.code_verifier.as_str());
    match &pending.client_secret {
        Some(s) => {
            push_field(&mut f, "client_secret", s.as_str());
        },
        None => {},
    }
    assert(form_view(f@) =~= exchange_form_of(
        pending.client_id@,
        opt_view(pending.client_secret),
        code@,
        pending.redirect_uri@,
        pending.code_verifier@,
    ));
    f
}

/// The form that trades a refresh token for new tokens.
pub open spec fn refresh_form_of(
    client_id: Seq<char>,
    refresh: Seq<char>,
    client_secret: Option<Seq<char>>,
) -> Seq<(Seq<char>, Seq<char>)> {
    let base = seq![
        field("grant_type"@, "refresh_token"@),
        field("client_id"@, client_id),
        field("refresh_token"@, refresh),
    ];
    match client_secret {
        Some(s) => base.push(field("client_secret"@, s)),
        None => base,
    }
}

/// The endpoint and form that refresh the tokens of `account`: refused when
/// it has no refresh token, and for iCloud.
pub fn refresh_request(account: &Account) -> (r: Result<(&'static str, Vec<(String, String)>), OAuthError>)
    ensures
        account.refresh_token is None ==> r == Err::<(&'static str, Vec<(String, String)>), OAuthError>(
            OAuthError::NoRefreshToken(account.id),
        ),
        account.refresh_token is Some && account.provider == Provider::ICloud ==> r == Err::<
            (&'static str, Vec<(String, String)>),
            OAuthError,
        >(OAuthError::ICloudHasNoTokens),
        account.refresh_token is Some && account.provider != Provider::ICloud ==> (r matches Ok(
            (url, form),
        ) && token_url_of(account.provider) == Some(url@) && form_view(form@) == refresh_form_of(
            account.client_id@,
            account.refresh_token->0@,
            opt_view(account.client_secret),
        )),
{
    let refresh = match &account.refresh_token {
        Some(t) => t,
        None => {
            return Err(OAuthError::NoRefreshToken(account.id.clone()));
        },
    };
    let url = match token_url(account.provider) {
        Some(u) => u,
        None => {
            return Err(OAuthError::ICloudHasNoTokens);
        },
    };
    let mut f: Vec<(String, String)> = Vec::new();
    push_field(&mut f, "grant_type", "refresh_token");
    push_field(&mut f, "client_id", account.client_id.as_str());
    push_field(&mut f, "refresh_token", refresh.as_str());
    match &account.client_secret {
        Some(s) => {
            push_field(&mut f, "client_secret", s.as_str());
        },
        None => {},
    }
    assert(form_view(f@) =~= refresh_form_of(
        account.client_id@,
        account.refresh_token->0@,
        opt_view(account.client_secret),
    ));
    Ok((url, f))
}

/// The lifetime a token is taken to have when the endpoint gives none.
pub open spec fn lifetime_of(expires_in: Option<u64>) -> u64 {
    match expires_in {
        Some(e) => e,
        None => 3600,
    }
}

/// When a token obtained at `now` expires, the lifetime taken as an `i64`.
pub open spec fn expiry_of(now: i64, expires_in: Option<u64>) -> int {
    now + (lifetime_of(expires_in) as i64)
}

/// When a token obtained at `now` (seconds since the epoch) expires.
pub fn expiry_time(now: i64, expires_in: Option<u64>) -> (t: i64)
    requires
        i64::MIN <= expiry_of(now, expires_in) <= i64::MAX,
    ensures
        t == expiry_of(now, expires_in),
{
    let life = match expires_in {
        Some(e) => e,
        None => 3600,
    };
    now + (life as i64)
}

/// Takes in the answer of a refresh obtained at `now`: the new access token,
/// the new refresh token if one came, and the new expiry.
pub fn apply_token(account: &mut Account, token: TokenResponse, now: i64)
    requires
        i64::MIN <= expiry_of(now, token.expires_in) <= i64::MAX,
    ensures
        final(account).access_token == Some(token.access_token),
        final(account).refresh_token == (match token.refresh_token {
            Some(t) => Some(t),
            None => old(account).refresh_token,
        }),
        final(account).expires_at == Some(expiry_of(now, token.expires_in) as i64),
        final(account).id == old(account).id,
        final(account).provider == old(account).provider,
        final(account).email == old(account).email,
        final(account).client_id == old(account).client_id,
        final(account).client_secret == old(account).client_secret,
        final(account).icloud_password == old(account).icloud_password,
{
    let t = expiry_time(now, token.expires_in);
    account.access_token = Some(token.access_token);
    match token.refresh_token {
        Some(r) => {
            account.refresh_token = Some(r);
        },
        None => {},
    }
    account.expires_at = Some(t);
}

/// The account made when the tokens of a pending authorization arrive at `now`.
pub fn account_from_token(pending: PendingAuth, token: TokenResponse, email: Option<String>, now: i64) -> (a: Account)
    requires
        i64::MIN <= expiry_of(now, token.expires_in) <= i64::MAX,
    ensures
        a == (Account {
            id: pending.account_id,
            provider: pending.provider,
            email,
            client_id: pending.client_id,
            client_secret: pending.client_secret,
            access_token: Some(token.access_token),
            refresh_token: token.refresh_token,
            expires_at: Some(expiry_of(now, token.expires_in) as i64),
            icloud_password: None,
        }),
{
    let t = expiry_time(now, token.expires_in);
    Account {
        id: pending.account_id,
        provider: pending.provider,
        email,
        client_id: pending.client_id,
        client_secret: pending.client_secret,
        access_token: Some(token.access_token),
        refresh_token: token.refresh_token,
        expires_at: Some(t),
        icloud_password: None,
    }
}

/// The user-info endpoint of each provider; iCloud has none.
pub open spec fn userinfo_url_of(p: Provider) -> Option<Seq<char>> {
    match p {
        Provider::Gmail => Some("https://www.googleapis.com/oauth2/v1/userinfo"@),
        Provider::Outlook => Some("https://graph.microsoft.com/v1.0/me"@),
        Provider::ICloud => None,
    }
}

/// The user-info endpoint of `p`; refused for iCloud.
pub fn userinfo_url(p: Provider) -> (r: Result<&'static str, OAuthError>)
    ensures
        r matches Ok(s) ==> userinfo_url_of(p) == Some(s@),
        r is Err ==> userinfo_url_of(p) is None && r == Err::<&'static str, OAuthError>(
            OAuthError::NotApplicable,
        ),
{
    match p {
        Provider::Gmail => Ok("https://www.googleapis.com/oauth2/v1/userinfo"),
        Provider::Outlook => Ok("https://graph.microsoft.com/v1.0/me"),
        Provider::ICloud => Err(OAuthError::NotApplicable),
    }
}

/// The address in a user-info answer: `email` for Gmail, `mail` or else
/// `userPrincipalName` for Outlook, `unknown` when it is missing.
pub open spec fn user_email_of(p: Provider, info: crate::json::JsonV) -> Option<Seq<char>> {
    match p {
        Provider::Gmail => Some(
            match str_of(member(info, "email"@)) {
                Some(s) => s,
                None => "unknown"@,
            },
        ),
        Provider::Outlook => Some(
            match str_of(member(info, "mail"@)) {
                Some(s) => s,
                None => match str_of(member(info, "userPrincipalName"@)) {
                    Some(s) => s,
                    None => "unknown"@,
                },
            },
        ),
        Provider::ICloud => None,
    }
}

fn str_member<'a>(j: &'a Json, key: &str) -> (r: Option<&'a str>)
    ensures
        r matches Some(s) ==> str_of(member(j@, key@)) == Some(s@),
        r is None ==> str_of(member(j@, key@)) is None,
{
    match j.get(key) {
        Some(v) => v.as_str(),
        None => None,
    }
}

/// The address of the user in a user-info answer; refused for iCloud.
pub fn user_email(p: Provider, info: &Json) -> (r: Result<String, OAuthError>)
    ensures
        r matches Ok(s) ==> user_email_of(p, info@) == Some(s@),
        r is Err ==> user_email_of(p, info@) is None && r == Err::<String, OAuthError>(
            OAuthError::NotApplicable,
        ),
{
    match p {
        Provider::Gmail => match str_member(info, "email") {
            Some(s) => Ok(copy_str(s)),
            None => Ok(copy_str("unknown")),
        },
        Provider::Outlook => match str_member(info, "mail") {
            Some(s) => Ok(copy_str(s)),
            None => match str_member(info, "userPrincipalName") {
                Some(s) => Ok(copy_str(s)),
                None => Ok(copy_str("unknown")),
            },
        },
        Provider::ICloud => Err(OAuthError::NotApplicable),
    }
}

/// Whether the access token must be refreshed before use at `now`: there is
/// none, its expiry is unknown, or it expires within a minute.
pub open spec fn needs_refresh_at(a: Account, now: i64) -> bool {
    a.access_token is None || match a.expires_at {
        Some(e) => e < now + 60,
        None => true,
    }
}

/// Whether the access token of `a` must be refreshed before use at `now`.
pub fn needs_refresh(a: &Account, now: i64) -> (r: bool)
    requires
        now <= i64::MAX - 60,
    ensures
        r == needs_refresh_at(*a, now),
{
    a.access_token.is_none() || match a.expires_at {
        Some(e) => e < now + 60,
        None => true,
    }
}


/// The error for an account that is not configured.
pub fn account_not_found(id: &str) -> (m: String)
    ensures
        m@ == "account '"@ + id@ + "' not found"@,
{
    cat3("account '", id, "' not found")
}

/// The access token of `account`, or the error for an account without one.
pub fn access_token(account: &Account) -> (r: Result<String, String>)
    ensures
        r matches Ok(t) ==> account.access_token matches Some(a) && a@ == t@,
        r matches Err(m) ==> account.access_token is None && m@ == "account '"@ + account.id@
            + "' is not authenticated"@,
{
    match &account.access_token {
        Some(t) => Ok(t.clone()),
        None => Err(cat3("account '", account.id.as_str(), "' is not authenticated")),
    }
}

/// The error for a refused code exchange, with the body of the answer.
pub fn exchange_failed(body: &str) -> (m: String)
    ensures
        m@ == "Token exchange failed: "@ + body@,
{
    cat("Token exchange failed: ", body)
}

/// The error for a refused refresh, with the body of the answer.
pub fn refresh_failed(body: &str) -> (m: String)
    ensures
        m@ == "Token refresh failed: "@ + body@,
{
    cat("Token refresh failed: ", body)
}

/// A token taken in by `apply_token` is the one an account then uses, and a
/// refresh answer without a refresh token keeps the old one.
pub proof fn law_refresh_keeps_refresh_token(before: Account, after: Account, token: TokenResponse, now: i64)
    requires
        after.access_token == Some(token.access_token),
        after.refresh_token == (match token.refresh_token {
            Some(t) => Some(t),
            None => before.refresh_token,
        }),
        after.expires_at == Some(expiry_of(now, token.expires_in) as i64),
        i64::MIN <= expiry_of(now, token.expires_in) <= i64::MAX,
        now <= i64::MAX - 60,
        token.expires_in matches Some(e) && 60 <= e <= i64::MAX,
    ensures
        token.refresh_token is None ==> after.refresh_token == before.refresh_token,
        !needs_refresh_at(after, now),
{
    let e = token.expires_in->0;
    assert((e as i64) as int == e as int);
}


// ---------------------------------------------------------------------------
// The callback request carries the code back
// ---------------------------------------------------------------------------

/// `s` holds none of the characters that end a word, a query or a parameter.
pub open spec fn plain_text(s: Seq<char>) -> bool {
    forall|j: int|
        0 <= j < s.len() ==> !is_ws(#[trigger] s[j]) && s[j] != '?' && s[j] != '&' && s[j]
            != '\n' && s[j] != '='
}

proof fn lemma_trim_start_keeps(s: Seq<char>)
    requires
        s.len() > 0,
        !is_ws(s[0]),
    ensures
        trim_start(s) == s,
{
}

/// The browser's request for `path?code=<code>` gives back `code`, whatever
/// the code, when neither holds a separator.
pub proof fn law_code_from_callback(path: Seq<char>, code: Seq<char>)
    requires
        plain_text(path),
        plain_text(code),
    ensures
        auth_code("GET "@ + path + "?code="@ + code + " HTTP/1.1"@) == Some(code),
{
    reveal_strlit("GET ");
    reveal_strlit("?code=");
    reveal_strlit(" HTTP/1.1");
    reveal_strlit("code");
    reveal_strlit("code=");
    let tok = path + "?code="@ + code;
    let req = "GET "@ + path + "?code="@ + code + " HTTP/1.1"@;
    assert(req =~= "GET "@ + tok + " HTTP/1.1"@);
    let n = tok.len();
    assert(req.len() == 4 + n + 9);
    assert forall|j: int| 0 <= j < tok.len() implies !is_ws(#[trigger] tok[j]) && tok[j] != '\n' by {
        if j < path.len() {
            assert(tok[j] == path[j]);
        } else if j < path.len() + 6 {
            assert(tok[j] == "?code="@[j - path.len()]);
        } else {
            assert(tok[j] == code[j - path.len() - 6]);
        }
    }
    // one line
    assert forall|j: int| 0 <= j < req.len() implies req[j] != '\n' by {
        if 4 <= j < 4 + n {
            assert(req[j] == tok[j - 4]);
        }
    }
    lemma_first_index(req, '\n', req.len() as int);
    assert(text_lines(req) == seq![req]);
    // the words
    lemma_trim_start_keeps(req);
    lemma_word_len(req, 3);
    let rest = req.skip(3);
    assert(words(req) == seq![req.take(3)] + words(rest));
    assert(rest[0] == ' ');
    lemma_trim_start_skip(rest, 1);
    let rest2 = rest.skip(1);
    assert(rest2 =~= tok + " HTTP/1.1"@);
    assert(rest2[0] == tok[0]);
    lemma_trim_start_keeps(rest2);
    assert(trim_start(rest) == rest2);
    assert forall|j: int| 0 <= j < n implies !is_ws(rest2[j]) by {
        assert(rest2[j] == tok[j]);
    }
    lemma_word_len(rest2, n as int);
    assert(rest2.take(n as int) =~= tok);
    assert(words(rest) == seq![tok] + words(rest2.skip(n as int)));
    let ws = words(req);
    assert(ws.len() >= 2);
    assert(ws[1] == tok);
    // the query
    assert forall|j: int| 0 <= j < path.len() implies tok[j] != '?' by {
        assert(tok[j] == path[j]);
    }
    assert(tok[path.len() as int] == '?');
    lemma_first_index(tok, '?', path.len() as int);
    let q = tok.skip(path.len() as int + 1);
    assert forall|j: int| 0 <= j < q.len() implies q[j] == ("code="@ + code)[j] by {
        assert(q[j] == tok[path.len() + 1 + j]);
        if j < 5 {
            assert(tok[path.len() + 1 + j] == "?code="@[1 + j]);
        } else {
            assert(tok[path.len() + 1 + j] == code[j - 5]);
        }
    }
    assert(q =~= "code="@ + code);
    assert forall|j: int| 0 <= j < q.len() implies q[j] != '?' && q[j] != '&' by {
        if j >= 5 {
            assert(q[j] == code[j - 5]);
        }
    }
    lemma_first_index(q, '?', q.len() as int);
    assert(split_on(q, '?') == seq![q]);
    let parts = split_on(tok, '?');
    assert(parts == seq![tok.take(path.len() as int)] + seq![q]);
    assert(parts[1] == q);
    lemma_first_index(q, '&', q.len() as int);
    assert(split_on(q, '&') == seq![q]);
    // the parameter
    lemma_first_index(q, '=', 4);
    assert(q.take(4) =~= "code"@);
    assert(q.skip(5) =~= code);
    assert(code_param(q) == Some(code));
    assert(first_code(seq![q]) == Some(code));
}


/// `item` is one of the space-separated entries of the scope list `scope`.
pub open spec fn asks_scope(scope: Seq<char>, item: Seq<char>) -> bool {
    exists|i: int|
        0 <= i && i + item.len() <= scope.len() && #[trigger] scope.subrange(i, i + item.len())
            == item && (i == 0 || scope[i - 1] == ' ') && (i + item.len() == scope.len() || scope[i
            + item.len()] == ' ')
}

proof fn lemma_asks_scope(scope: Seq<char>, item: Seq<char>, i: int)
    requires
        0 <= i && i + item.len() <= scope.len(),
        scope.subrange(i, i + item.len()) == item,
        i == 0 || scope[i - 1] == ' ',
        i + item.len() == scope.len() || scope[i + item.len()] == ' ',
    ensures
        asks_scope(scope, item),
{
}

/// The Outlook authorization asks for every Graph permission the mail tools
/// use (reading and changing mail, sending mail, reading the user) and for a
/// refresh token, and the authorization URL carries exactly that scope list.
pub proof fn law_outlook_scopes(client_id: Seq<char>, redirect: Seq<char>, challenge: Seq<char>)
    ensures
        scope_of(Provider::Outlook) matches Some(s) && asks_scope(
            s,
            "https://graph.microsoft.com/Mail.ReadWrite"@,
        ) && asks_scope(s, "https://graph.microsoft.com/Mail.Send"@) && asks_scope(
            s,
            "https://graph.microsoft.com/User.Read"@,
        ) && asks_scope(s, "offline_access"@),
        exists|pre: Seq<char>, post: Seq<char>|
            auth_url_of(Provider::Outlook, client_id, redirect, challenge) == Some(
                pre + "&scope="@ + enc(scope_of(Provider::Outlook)->0) + "&"@ + post,
            ),
{
    let s = "https://graph.microsoft.com/Mail.ReadWrite https://graph.microsoft.com/Mail.Send https://graph.microsoft.com/User.Read offline_access"@;
    reveal_strlit("https://graph.microsoft.com/Mail.ReadWrite https://graph.microsoft.com/Mail.Send https://graph.microsoft.com/User.Read offline_access");
    reveal_strlit("https://graph.microsoft.com/Mail.ReadWrite");
    reveal_strlit("https://graph.microsoft.com/Mail.Send");
    reveal_strlit("https://graph.microsoft.com/User.Read");
    reveal_strlit("offline_access");
    assert(s.subrange(0, 42) =~= "https://graph.microsoft.com/Mail.ReadWrite"@);
    assert(s.subrange(43, 80) =~= "https://graph.microsoft.com/Mail.Send"@);
    assert(s.subrange(81, 118) =~= "https://graph.microsoft.com/User.Read"@);
    assert(s.subrange(119, 133) =~= "offline_access"@);
    lemma_asks_scope(s, "https://graph.microsoft.com/Mail.ReadWrite"@, 0);
    lemma_asks_scope(s, "https://graph.microsoft.com/Mail.Send"@, 43);
    lemma_asks_scope(s, "https://graph.microsoft.com/User.Read"@, 81);
    lemma_asks_scope(s, "offline_access"@, 119);
    reveal_strlit("&response_type=code&scope=");
    reveal_strlit("&response_type=code");
    reveal_strlit("&scope=");
    reveal_strlit("&code_challenge=");
    reveal_strlit("code_challenge=");
    reveal_strlit("&");
    assert("&response_type=code&scope="@ =~= "&response_type=code"@ + "&scope="@);
    assert("&code_challenge="@ =~= "&"@ + "code_challenge="@);
    let pre = "https://login.microsoftonline.com/common/oauth2/v2.0/authorize?client_id="@ + enc(
        client_id,
    ) + "&redirect_uri="@ + enc(redirect) + "&response_type=code"@;
    let post = "code_challenge="@ + challenge + "&code_challenge_method=S256"@;
    let e = enc(s);
    assert(auth_url_of(Provider::Outlook, client_id, redirect, challenge)->0 =~= pre + "&scope="@ + e
        + "&"@ + post);
}

/// The Gmail authorization asks to read and change mail and to read the
/// user's address.
pub proof fn law_gmail_scopes()
    ensures
        scope_of(Provider::Gmail) matches Some(s) && asks_scope(
            s,
            "https://www.googleapis.com/auth/gmail.modify"@,
        ) && asks_scope(s, "https://www.googleapis.com/auth/userinfo.email"@),
{
    let s = "https://www.googleapis.com/auth/gmail.modify https://www.googleapis.com/auth/userinfo.email"@;
    reveal_strlit("https://www.googleapis.com/auth/gmail.modify https://www.googleapis.com/auth/userinfo.email");
    reveal_strlit("https://www.googleapis.com/auth/gmail.modify");
    reveal_strlit("https://www.googleapis.com/auth/userinfo.email");
    assert(s.subrange(0, 44) =~= "https://www.googleapis.com/auth/gmail.modify"@);
    assert(s.subrange(45, 91) =~= "https://www.googleapis.com/auth/userinfo.email"@);
    lemma_asks_scope(s, "https://www.googleapis.com/auth/gmail.modify"@, 0);
    lemma_asks_scope(s, "https://www.googleapis.com/auth/userinfo.email"@, 45);
}

/// The refresh form is an OAuth 2.0 refresh-token grant (RFC 6749, section
/// 6): it starts with `grant_type=refresh_token`, carries the client id and
/// the refresh token, and differs in its grant type from every code exchange.
pub proof fn law_refresh_form_is_refresh_grant(
    client_id: Seq<char>,
    refresh: Seq<char>,
    client_secret: Option<Seq<char>>,
    secret2: Option<Seq<char>>,
    code: Seq<char>,
    redirect: Seq<char>,
    verifier: Seq<char>,
)
    ensures
        refresh_form_of(client_id, refresh, client_secret)[0] == ("grant_type"@, "refresh_token"@),
        exists|i: int|
            0 <= i < refresh_form_of(client_id, refresh, client_secret).len() && #[trigger] refresh_form_of(
                client_id,
                refresh,
                client_secret,
            )[i] == ("refresh_token"@, refresh),
        exists|i: int|
            0 <= i < refresh_form_of(client_id, refresh, client_secret).len() && #[trigger] refresh_form_of(
                client_id,
                refresh,
                client_secret,
            )[i] == ("client_id"@, client_id),
        exchange_form_of(client_id, secret2, code, redirect, verifier)[0] == (
            "grant_type"@,
            "authorization_code"@,
        ),
        refresh_form_of(client_id, refresh, client_secret)[0] != exchange_form_of(
            client_id,
            secret2,
            code,
            redirect,
            verifier,
        )[0],
{
    let f = refresh_form_of(client_id, refresh, client_secret);
    assert(f[2] == ("refresh_token"@, refresh));
    assert(f[1] == ("client_id"@, client_id));
    reveal_strlit("refresh_token");
    reveal_strlit("authorization_code");
    assert("refresh_token"@[0] != "authorization_code"@[0]);
}

}
