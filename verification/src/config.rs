use vstd::prelude::*;

use crate::text::{cat, cat3, chars_of, copy_str, str_eq};

verus! {

/// The mail services an account can belong to.
#[derive(Debug, Clone, Copy, PartialEq, Eq, Structural)]
pub enum Provider {
    Gmail,
    Outlook,
    ICloud,
}

/// The lower-case name of a provider, as it is shown and stored.
pub open spec fn provider_name(p: Provider) -> Seq<char> {
    match p {
        Provider::Gmail => "gmail"@,
        Provider::Outlook => "outlook"@,
        Provider::ICloud => "icloud"@,
    }
}

impl Provider {
    /// The lower-case name of the provider.
    pub fn as_str(&self) -> (s: &'static str)
        ensures
            s@ == provider_name(*self),
    {
        match self {
            Provider::Gmail => "gmail",
            Provider::Outlook => "outlook",
            Provider::ICloud => "icloud",
        }
    }

    /// The name of the provider as an owned string.
    pub fn to_string(&self) -> (s: String)
        ensures
            s@ == provider_name(*self),
    {
        copy_str(self.as_str())
    }
}

/// A copy of an optional string.
pub fn copy_opt(o: &Option<String>) -> (r: Option<String>)
    ensures
        r == *o,
{
    match o {
        Some(s) => Some(s.clone()),
        None => None,
    }
}

/// A configured mail account.
#[derive(Debug, Clone)]
pub struct Account {
    pub id: String,
    pub provider: Provider,
    pub email: Option<String>,
    pub client_id: String,
    pub client_secret: Option<String>,
    pub access_token: Option<String>,
    pub refresh_token: Option<String>,
    pub expires_at: Option<i64>,
    pub icloud_password: Option<String>,
}

impl Account {
    /// A field-by-field copy of the account.
    pub fn duplicate(&self) -> (r: Account)
        ensures
            r == *self,
    {
        Account {
            id: self.id.clone(),
            provider: self.provider,
            email: copy_opt(&self.email),
            client_id: self.client_id.clone(),
            client_secret: copy_opt(&self.client_secret),
            access_token: copy_opt(&self.access_token),
            refresh_token: copy_opt(&self.refresh_token),
            expires_at: self.expires_at,
            icloud_password: copy_opt(&self.icloud_password),
        }
    }
}

/// An OAuth authorization that has been started and waits for its callback.
#[derive(Debug, Clone)]
pub struct PendingAuth {
    pub account_id: String,
    pub code_verifier: String,
    pub redirect_uri: String,
    pub provider: Provider,
    pub client_id: String,
    pub client_secret: Option<String>,
}

// ---------------------------------------------------------------------------
// The account list as a sequence
// ---------------------------------------------------------------------------

/// The position of the first account whose id is `id`.
pub open spec fn index_of_id(s: Seq<Account>, id: Seq<char>) -> Option<int>
    decreases s.len(),
{
    if s.len() == 0 {
        None
    } else if s[0].id@ == id {
        Some(0)
    } else {
        match index_of_id(s.drop_first(), id) {
            Some(i) => Some(i + 1),
            None => None,
        }
    }
}

/// The first account whose id is `id`, if any.
pub open spec fn lookup(s: Seq<Account>, id: Seq<char>) -> Option<Account> {
    match index_of_id(s, id) {
        Some(i) => Some(s[i]),
        None => None,
    }
}

/// `s` with `a` in place of the first account of the same id, or `a` appended.
pub open spec fn upserted(s: Seq<Account>, a: Account) -> Seq<Account> {
    match index_of_id(s, a.id@) {
        Some(i) => s.update(i, a),
        None => s.push(a),
    }
}

/// `s` without the accounts whose id is `id`, the rest in order.
pub open spec fn without_id(s: Seq<Account>, id: Seq<char>) -> Seq<Account>
    decreases s.len(),
{
    if s.len() == 0 {
        s
    } else if s.last().id@ == id {
        without_id(s.drop_last(), id)
    } else {
        without_id(s.drop_last(), id).push(s.last())
    }
}

/// No two accounts share an id.
pub open spec fn unique_ids(s: Seq<Account>) -> bool {
    forall|i: int, j: int| 0 <= i < s.len() && 0 <= j < s.len() && i != j ==> s[i].id@ != s[j].id@
}

pub proof fn lemma_index_of_id(s: Seq<Account>, id: Seq<char>, i: int)
    requires
        0 <= i <= s.len(),
        forall|j: int| 0 <= j < i ==> s[j].id@ != id,
    ensures
        i < s.len() && s[i].id@ == id ==> index_of_id(s, id) == Some(i),
        i == s.len() ==> index_of_id(s, id) is None,
    decreases i,
{
    if i > 0 {
        lemma_index_of_id(s.drop_first(), id, i - 1);
    }
}

pub proof fn lemma_index_of_id_found(s: Seq<Account>, id: Seq<char>)
    ensures
        index_of_id(s, id) matches Some(i) ==> 0 <= i < s.len() && s[i].id@ == id && forall|j: int|
            0 <= j < i ==> s[j].id@ != id,
        index_of_id(s, id) is None ==> forall|j: int| 0 <= j < s.len() ==> s[j].id@ != id,
    decreases s.len(),
{
    if s.len() > 0 {
        lemma_index_of_id_found(s.drop_first(), id);
        if s[0].id@ != id {
            assert forall|j: int| 1 <= j < s.len() implies s[j] == s.drop_first()[j - 1] by {}
        }
    }
}

pub proof fn lemma_without_id(s: Seq<Account>, id: Seq<char>)
    ensures
        forall|j: int| 0 <= j < without_id(s, id).len() ==> #[trigger] without_id(s, id)[j].id@ != id,
        forall|j: int|
            0 <= j < without_id(s, id).len() ==> s.contains(#[trigger] without_id(s, id)[j]),
        forall|j: int| 0 <= j < s.len() && s[j].id@ != id ==> without_id(s, id).contains(#[trigger] s[j]),
        without_id(s, id).len() <= s.len(),
        without_id(s, id).len() == s.len() <==> index_of_id(s, id) is None,
    decreases s.len(),
{
    lemma_index_of_id_found(s, id);
    if s.len() > 0 {
        let t = s.drop_last();
        lemma_without_id(t, id);
        lemma_index_of_id_found(t, id);
        let w = without_id(t, id);
        assert forall|j: int| 0 <= j < without_id(s, id).len() implies s.contains(
            #[trigger] without_id(s, id)[j],
        ) by {
            if j < w.len() {
                let k = choose|k: int| 0 <= k < t.len() && t[k] == w[j];
                assert(s[k] == t[k]);
            } else {
                assert(s[s.len() - 1] == s.last());
            }
        }
        assert forall|j: int| 0 <= j < s.len() && s[j].id@ != id implies without_id(
            s,
            id,
        ).contains(#[trigger] s[j]) by {
            if j < s.len() - 1 {
                assert(t[j] == s[j]);
                let k = choose|k: int| 0 <= k < w.len() && w[k] == t[j];
                if s.last().id@ != id {
                    assert(without_id(s, id)[k] == w[k]);
                }
            } else {
                if s.last().id@ != id {
                    assert(without_id(s, id)[w.len() as int] == s.last());
                }
            }
        }
        if s.last().id@ == id {
            assert(s[s.len() - 1].id@ == id);
        } else {
            if index_of_id(t, id) is Some {
                let i = index_of_id(t, id)->0;
                assert(s[i] == t[i]);
            }
            if index_of_id(s, id) is Some {
                let i = index_of_id(s, id)->0;
                assert(t[i] == s[i]);
            }
        }
    }
}

// ---------------------------------------------------------------------------
// Pending authorizations
// ---------------------------------------------------------------------------

/// The position of the pending authorization for `id`.
pub open spec fn index_of_pending(s: Seq<PendingAuth>, id: Seq<char>) -> Option<int>
    decreases s.len(),
{
    if s.len() == 0 {
        None
    } else if s[0].account_id@ == id {
        Some(0)
    } else {
        match index_of_pending(s.drop_first(), id) {
            Some(i) => Some(i + 1),
            None => None,
        }
    }
}

pub proof fn lemma_index_of_pending(s: Seq<PendingAuth>, id: Seq<char>, i: int)
    requires
        0 <= i <= s.len(),
        forall|j: int| 0 <= j < i ==> s[j].account_id@ != id,
    ensures
        i < s.len() && s[i].account_id@ == id ==> index_of_pending(s, id) == Some(i),
        i == s.len() ==> index_of_pending(s, id) is None,
    decreases i,
{
    if i > 0 {
        lemma_index_of_pending(s.drop_first(), id, i - 1);
    }
}

/// No two pending authorizations are for the same account.
pub open spec fn unique_pending(s: Seq<PendingAuth>) -> bool {
    forall|i: int, j: int|
        0 <= i < s.len() && 0 <= j < s.len() && i != j ==> s[i].account_id@ != s[j].account_id@
}

/// The pending authorizations keyed by account id.
pub open spec fn pending_map(s: Seq<PendingAuth>) -> Map<Seq<char>, PendingAuth> {
    Map::new(
        |id: Seq<char>| index_of_pending(s, id) is Some,
        |id: Seq<char>| s[index_of_pending(s, id)->0],
    )
}

// ---------------------------------------------------------------------------
// Paths
// ---------------------------------------------------------------------------

/// `dir` joined with the relative file name `name`, as `Path::join` joins them.
pub open spec fn path_join(dir: Seq<char>, name: Seq<char>) -> Seq<char> {
    if dir.len() == 0 {
        name
    } else if dir.last() == '/' {
        dir + name
    } else {
        dir + "/"@ + name
    }
}

// ---------------------------------------------------------------------------
// The state shared by all requests
// ---------------------------------------------------------------------------

/// The accounts and the authorizations in progress.
pub struct AppState {
    config_dir: String,
    accounts: Vec<Account>,
    pending_auths: Vec<PendingAuth>,
}

impl AppState {
    /// The configured accounts, in order.
    pub closed spec fn accounts(&self) -> Seq<Account> {
        self.accounts@
    }

    /// The pending authorizations, in the order they were started.
    pub closed spec fn pending(&self) -> Seq<PendingAuth> {
        self.pending_auths@
    }

    /// The configuration directory.
    pub closed spec fn dir(&self) -> Seq<char> {
        self.config_dir@
    }

    /// Each account has at most one pending authorization.
    pub open spec fn wf(&self) -> bool {
        unique_pending(self.pending())
    }

    /// A state over the accounts read from the configuration directory.
    pub fn new(config_dir: String, accounts: Vec<Account>) -> (s: AppState)
        ensures
            s.wf(),
            s.dir() == config_dir@,
            s.accounts() == accounts@,
            s.pending() == Seq::<PendingAuth>::empty(),
    {
        AppState { config_dir, accounts, pending_auths: Vec::new() }
    }

    /// The configuration directory.
    pub fn config_dir(&self) -> (r: &str)
        ensures
            r@ == self.dir(),
    {
        self.config_dir.as_str()
    }

    /// The file the accounts are kept in.
    pub fn accounts_path(&self) -> (r: String)
        ensures
            r@ == path_join(self.dir(), "accounts.json"@),
    {
        let dir = self.config_dir.as_str();
        let cs = chars_of(dir);
        if cs.len() == 0 {
            copy_str("accounts.json")
        } else if cs[cs.len() - 1] == '/' {
            cat(dir, "accounts.json")
        } else {
            cat3(dir, "/", "accounts.json")
        }
    }

    fn position(&self, id: &str) -> (r: Option<usize>)
        ensures
            r matches Some(i) ==> index_of_id(self.accounts(), id@) == Some(i as int) && i
                < self.accounts().len(),
            r is None ==> index_of_id(self.accounts(), id@) is None,
    {
        let n = self.accounts.len();
        for i in 0..n
            invariant
                n == self.accounts@.len(),
                forall|j: int| 0 <= j < i ==> self.accounts@[j].id@ != id@,
        {
            if str_eq(self.accounts[i].id.as_str(), id) {
                proof {
                    lemma_index_of_id(self.accounts@, id@, i as int);
                }
                return Some(i);
            }
        }
        proof {
            lemma_index_of_id(self.accounts@, id@, n as int);
        }
        None
    }

    /// A copy of every configured account, in order.
    pub fn load_accounts(&self) -> (r: Vec<Account>)
        ensures
            r@ == self.accounts(),
    {
        let mut r: Vec<Account> = Vec::new();
        let n = self.accounts.len();
        for i in 0..n
            invariant
                n == self.accounts@.len(),
                r@ == self.accounts@.take(i as int),
        {
            r.push(self.accounts[i].duplicate());
            assert(self.accounts@.take(i + 1) == self.accounts@.take(i as int).push(
                self.accounts@[i as int],
            ));
        }
        assert(self.accounts@.take(n as int) == self.accounts@);
        r
    }

    /// Adds `account`, or replaces the first account with the same id.
    pub fn upsert_account(&mut self, account: Account)
        requires
            old(self).wf(),
        ensures
            final(self).wf(),
            final(self).accounts() == upserted(old(self).accounts(), account),
            final(self).pending() == old(self).pending(),
            final(self).dir() == old(self).dir(),
    {
        match self.position(account.id.as_str()) {
            Some(pos) => {
                self.accounts.set(pos, account);
            },
            None => {
                self.accounts.push(account);
            },
        }
    }

    /// A copy of the first account whose id is `account_id`.
    pub fn get_account(&self, account_id: &str) -> (r: Option<Account>)
        ensures
            r == lookup(self.accounts(), account_id@),
    {
        match self.position(account_id) {
            Some(pos) => Some(self.accounts[pos].duplicate()),
            None => None,
        }
    }

    /// Removes every account whose id is `account_id`; tells whether there was one.
    pub fn remove_account(&mut self, account_id: &str) -> (removed: bool)
        requires
            old(self).wf(),
        ensures
            final(self).wf(),
            final(self).accounts() == without_id(old(self).accounts(), account_id@),
            removed == (lookup(old(self).accounts(), account_id@) is Some),
            final(self).pending() == old(self).pending(),
            final(self).dir() == old(self).dir(),
    {
        let ghost before = self.accounts@;
        let mut kept: Vec<Account> = Vec::new();
        let mut found = false;
        let n = self.accounts.len();
        for i in 0..n
            invariant
                n == self.accounts@.len(),
                self.accounts@ == before,
                kept@ == without_id(before.take(i as int), account_id@),
                found == (index_of_id(before.take(i as int), account_id@) is Some),
        {
            proof {
                assert(before.take(i + 1).drop_last() =~= before.take(i as int));
                lemma_index_of_id_found(before.take(i as int), account_id@);
                lemma_index_of_id_found(before.take(i + 1), account_id@);
                if index_of_id(before.take(i as int), account_id@) is Some {
                    let k = index_of_id(before.take(i as int), account_id@)->0;
                    assert(before.take(i + 1)[k] == before.take(i as int)[k]);
                }
                if index_of_id(before.take(i + 1), account_id@) is Some {
                    let k = index_of_id(before.take(i + 1), account_id@)->0;
                    if k < i {
                        assert(before.take(i + 1)[k] == before.take(i as int)[k]);
                    }
                }
            }
            if str_eq(self.accounts[i].id.as_str(), account_id) {
                found = true;
            } else {
                kept.push(self.accounts[i].duplicate());
            }
        }
        assert(before.take(n as int) =~= before);
        self.accounts = kept;
        found
    }

    fn pending_position(&self, id: &str) -> (r: Option<usize>)
        ensures
            r matches Some(i) ==> index_of_pending(self.pending(), id@) == Some(i as int),
            r is None ==> index_of_pending(self.pending(), id@) is None,
    {
        let n = self.pending_auths.len();
        for i in 0..n
            invariant
                n == self.pending_auths@.len(),
                forall|j: int| 0 <= j < i ==> self.pending_auths@[j].account_id@ != id@,
        {
            if str_eq(self.pending_auths[i].account_id.as_str(), id) {
                proof {
                    lemma_index_of_pending(self.pending_auths@, id@, i as int);
                }
                return Some(i);
            }
        }
        proof {
            lemma_index_of_pending(self.pending_auths@, id@, n as int);
        }
        None
    }

    /// Records a started authorization, in place of any earlier one for the same account.
    pub fn insert_pending_auth(&mut self, auth: PendingAuth)
        requires
            old(self).wf(),
        ensures
            final(self).wf(),
            pending_map(final(self).pending()) == pending_map(old(self).pending()).insert(
                auth.account_id@,
                auth,
            ),
            final(self).accounts() == old(self).accounts(),
            final(self).dir() == old(self).dir(),
    {
        let n = self.pending_auths.len();
        let found = self.pending_position(auth.account_id.as_str());
        let i = match found {
            Some(k) => k,
            None => n,
        };
        let ghost old_s = self.pending_auths@;
        let ghost key = auth.account_id@;
        proof {
            lemma_pending_found(old_s, key);
        }
        if i < n {
            self.pending_auths.set(i, auth);
        } else {
            self.pending_auths.push(auth);
        }
        proof {
            let new_s = self.pending_auths@;
            assert forall|id: Seq<char>| #[trigger] index_of_pending(new_s, id)
                == (if id == key { Some(i as int) } else { index_of_pending(old_s, id) }) by {
                lemma_pending_positions(old_s, new_s, key, i as int, id);
            }
            lemma_pending_positions(old_s, new_s, key, i as int, key);
            assert forall|id: Seq<char>|
                #![trigger pending_map(new_s).dom().contains(id)]
                pending_map(new_s).dom().contains(id) && id != key implies pending_map(new_s)[id]
                == pending_map(old_s)[id] by {
                lemma_pending_positions(old_s, new_s, key, i as int, id);
                lemma_pending_found(old_s, id);
                let k = index_of_pending(old_s, id)->0;
                assert(k != i);
            }
            assert(pending_map(new_s) =~= pending_map(old_s).insert(key, auth));
        }
    }

    /// Takes out the pending authorization for `account_id`, if there is one.
    pub fn take_pending_auth(&mut self, account_id: &str) -> (r: Option<PendingAuth>)
        requires
            old(self).wf(),
        ensures
            final(self).wf(),
            pending_map(old(self).pending()).contains_key(account_id@) ==> r == Some(
                pending_map(old(self).pending())[account_id@],
            ),
            !pending_map(old(self).pending()).contains_key(account_id@) ==> r is None,
            pending_map(final(self).pending()) == pending_map(old(self).pending()).remove(
                account_id@,
            ),
            final(self).accounts() == old(self).accounts(),
            final(self).dir() == old(self).dir(),
    {
        let n = self.pending_auths.len();
        let found = self.pending_position(account_id);
        let i = match found {
            Some(k) => k,
            None => n,
        };
        let ghost old_s = self.pending_auths@;
        proof {
            lemma_pending_found(old_s, account_id@);
        }
        if i < n {
            let p = self.pending_auths.remove(i);
            proof {
                let new_s = self.pending_auths@;
                assert forall|id: Seq<char>| #[trigger] index_of_pending(new_s, id) is Some
                    == (id != account_id@ && index_of_pending(old_s, id) is Some) by {
                    lemma_pending_removed(old_s, new_s, account_id@, i as int, id);
                }
                assert forall|id: Seq<char>|
                    #![trigger index_of_pending(new_s, id)]
                    index_of_pending(new_s, id) is Some ==> new_s[index_of_pending(new_s, id)->0]
                        == old_s[index_of_pending(old_s, id)->0] by {
                    lemma_pending_removed(old_s, new_s, account_id@, i as int, id);
                }
                assert(pending_map(new_s) =~= pending_map(old_s).remove(account_id@));
            }
            Some(p)
        } else {
            proof {
                assert(pending_map(old_s) =~= pending_map(old_s).remove(account_id@));
            }
            None
        }
    }

    /// The accounts that have an authorization in progress, in the order they were started.
    pub fn pending_account_ids(&self) -> (r: Vec<String>)
        ensures
            r@.len() == self.pending().len(),
            forall|i: int| 0 <= i < r@.len() ==> #[trigger] r@[i]@ == self.pending()[i].account_id@,
    {
        let mut r: Vec<String> = Vec::new();
        let n = self.pending_auths.len();
        for i in 0..n
            invariant
                n == self.pending_auths@.len(),
                r@.len() == i,
                forall|j: int| 0 <= j < i ==> #[trigger] r@[j]@ == self.pending_auths@[j].account_id@,
        {
            r.push(self.pending_auths[i].account_id.clone());
        }
        r
    }
}

proof fn lemma_pending_positions(
    old_s: Seq<PendingAuth>,
    new_s: Seq<PendingAuth>,
    key: Seq<char>,
    i: int,
    id: Seq<char>,
)
    requires
        unique_pending(old_s),
        0 <= i <= old_s.len(),
        forall|j: int| 0 <= j < i ==> old_s[j].account_id@ != key,
        i < old_s.len() ==> old_s[i].account_id@ == key,
        i < old_s.len() ==> new_s.len() == old_s.len(),
        i == old_s.len() ==> new_s.len() == old_s.len() + 1,
        forall|j: int| 0 <= j < old_s.len() && j != i ==> new_s[j] == old_s[j],
        new_s[i].account_id@ == key,
    ensures
        index_of_pending(new_s, id) == (if id == key {
            Some(i)
        } else {
            index_of_pending(old_s, id)
        }),
        unique_pending(new_s),
{
    lemma_pending_found(old_s, id);
    lemma_pending_found(new_s, id);
    if id == key {
        lemma_index_of_pending(new_s, id, i);
    } else {
        match index_of_pending(old_s, id) {
            Some(k) => {
                assert(k != i);
                lemma_index_of_pending(new_s, id, k);
            },
            None => {
                if index_of_pending(new_s, id) is Some {
                    let k = index_of_pending(new_s, id)->0;
                    assert(k != i);
                    assert(old_s[k] == new_s[k]);
                }
            },
        }
    }
    assert forall|a: int, b: int|
        0 <= a < new_s.len() && 0 <= b < new_s.len() && a != b implies new_s[a].account_id@
        != new_s[b].account_id@ by {
        if a != i && b != i {
            assert(new_s[a] == old_s[a]);
            assert(new_s[b] == old_s[b]);
        } else if a == i {
            if i < old_s.len() {
                assert(new_s[b] == old_s[b]);
            } else {
                assert(new_s[b] == old_s[b]);
            }
        } else {
            assert(new_s[a] == old_s[a]);
        }
    }
}

proof fn lemma_pending_found(s: Seq<PendingAuth>, id: Seq<char>)
    ensures
        index_of_pending(s, id) matches Some(i) ==> 0 <= i < s.len() && s[i].account_id@ == id
            && forall|j: int| 0 <= j < i ==> s[j].account_id@ != id,
        index_of_pending(s, id) is None ==> forall|j: int|
            0 <= j < s.len() ==> s[j].account_id@ != id,
    decreases s.len(),
{
    if s.len() > 0 {
        lemma_pending_found(s.drop_first(), id);
        if s[0].account_id@ != id {
            assert forall|j: int| 1 <= j < s.len() implies s[j] == s.drop_first()[j - 1] by {}
        }
    }
}

proof fn lemma_pending_removed(
    old_s: Seq<PendingAuth>,
    new_s: Seq<PendingAuth>,
    key: Seq<char>,
    i: int,
    id: Seq<char>,
)
    requires
        unique_pending(old_s),
        0 <= i < old_s.len(),
        old_s[i].account_id@ == key,
        new_s == old_s.remove(i),
    ensures
        (index_of_pending(new_s, id) is Some) == (id != key && index_of_pending(old_s, id) is Some),
        index_of_pending(new_s, id) is Some ==> new_s[index_of_pending(new_s, id)->0]
            == old_s[index_of_pending(old_s, id)->0],
        unique_pending(new_s),
{
    lemma_pending_found(old_s, id);
    lemma_pending_found(new_s, id);
    assert forall|a: int, b: int|
        0 <= a < new_s.len() && 0 <= b < new_s.len() && a != b implies new_s[a].account_id@
        != new_s[b].account_id@ by {
        let a2 = if a < i { a } else { a + 1 };
        let b2 = if b < i { b } else { b + 1 };
        assert(new_s[a] == old_s[a2]);
        assert(new_s[b] == old_s[b2]);
    }
    if index_of_pending(new_s, id) is Some {
        let k = index_of_pending(new_s, id)->0;
        let k2 = if k < i { k } else { k + 1 };
        assert(new_s[k] == old_s[k2]);
        assert(old_s[k2].account_id@ == id);
        if id == key {
            assert(k2 != i);
        }
        let m = index_of_pending(old_s, id)->0;
        assert(m == k2);
    } else {
        if id != key && index_of_pending(old_s, id) is Some {
            let m = index_of_pending(old_s, id)->0;
            assert(m != i);
            let m2 = if m < i { m } else { m - 1 };
            assert(new_s[m2] == old_s[m]);
        }
    }
}


// ---------------------------------------------------------------------------
// Laws of the account store
// ---------------------------------------------------------------------------

proof fn lemma_index_same(s1: Seq<Account>, s2: Seq<Account>, id: Seq<char>)
    requires
        s1.len() == s2.len(),
        forall|j: int| 0 <= j < s1.len() ==> (s1[j].id@ == id) == (s2[j].id@ == id),
    ensures
        index_of_id(s1, id) == index_of_id(s2, id),
    decreases s1.len(),
{
    if s1.len() > 0 {
        assert forall|j: int| 0 <= j < s1.len() - 1 implies (s1.drop_first()[j].id@ == id) == (
        s2.drop_first()[j].id@ == id) by {
            assert(s1.drop_first()[j] == s1[j + 1]);
            assert(s2.drop_first()[j] == s2[j + 1]);
        }
        lemma_index_same(s1.drop_first(), s2.drop_first(), id);
    }
}

proof fn lemma_lookup_push(t: Seq<Account>, x: Account, id: Seq<char>)
    ensures
        lookup(t.push(x), id) == (if lookup(t, id) is Some {
            lookup(t, id)
        } else if x.id@ == id {
            Some(x)
        } else {
            None
        }),
{
    let s = t.push(x);
    lemma_index_of_id_found(t, id);
    match index_of_id(t, id) {
        Some(i) => {
            assert forall|j: int| 0 <= j < i implies s[j].id@ != id by {
                assert(s[j] == t[j]);
            }
            assert(s[i] == t[i]);
            lemma_index_of_id(s, id, i);
        },
        None => {
            assert forall|j: int| 0 <= j < t.len() implies s[j].id@ != id by {
                assert(s[j] == t[j]);
            }
            assert(s[t.len() as int] == x);
            lemma_index_of_id(s, id, t.len() as int);
            if x.id@ != id {
                lemma_index_of_id(s, id, s.len() as int);
            }
        },
    }
}

/// Reading an account back after writing it gives what was written.
pub proof fn law_get_after_upsert(s: Seq<Account>, a: Account)
    ensures
        lookup(upserted(s, a), a.id@) == Some(a),
{
    lemma_index_of_id_found(s, a.id@);
    let u = upserted(s, a);
    match index_of_id(s, a.id@) {
        Some(i) => {
            assert forall|j: int| 0 <= j < i implies u[j].id@ != a.id@ by {}
            lemma_index_of_id(u, a.id@, i);
        },
        None => {
            lemma_lookup_push(s, a, a.id@);
        },
    }
}

/// Writing an account leaves every other id's account as it was.
pub proof fn law_upsert_keeps_others(s: Seq<Account>, a: Account, id: Seq<char>)
    requires
        id != a.id@,
    ensures
        lookup(upserted(s, a), id) == lookup(s, id),
{
    lemma_index_of_id_found(s, a.id@);
    let u = upserted(s, a);
    match index_of_id(s, a.id@) {
        Some(i) => {
            lemma_index_same(s, u, id);
            lemma_index_of_id_found(s, id);
            if index_of_id(s, id) is Some {
                assert(index_of_id(s, id)->0 != i);
            }
        },
        None => {
            lemma_lookup_push(s, a, id);
        },
    }
}

/// After a removal no account of that id is left.
pub proof fn law_get_after_remove(s: Seq<Account>, id: Seq<char>)
    ensures
        lookup(without_id(s, id), id) is None,
{
    lemma_without_id(s, id);
    lemma_index_of_id_found(without_id(s, id), id);
}

/// A removal leaves every other id's account as it was.
pub proof fn law_remove_keeps_others(s: Seq<Account>, id: Seq<char>, other: Seq<char>)
    requires
        other != id,
    ensures
        lookup(without_id(s, id), other) == lookup(s, other),
    decreases s.len(),
{
    if s.len() > 0 {
        let t = s.drop_last();
        law_remove_keeps_others(t, id, other);
        assert(t.push(s.last()) == s);
        lemma_lookup_push(t, s.last(), other);
        if s.last().id@ != id {
            lemma_lookup_push(without_id(t, id), s.last(), other);
        }
    }
}

/// A removal of an id that no account has changes nothing.
pub proof fn law_remove_absent(s: Seq<Account>, id: Seq<char>)
    requires
        lookup(s, id) is None,
    ensures
        without_id(s, id) == s,
{
    lemma_without_id(s, id);
    lemma_index_of_id_found(s, id);
    lemma_without_id_absent(s, id);
}

proof fn lemma_without_id_absent(s: Seq<Account>, id: Seq<char>)
    requires
        forall|j: int| 0 <= j < s.len() ==> s[j].id@ != id,
    ensures
        without_id(s, id) == s,
    decreases s.len(),
{
    if s.len() > 0 {
        let t = s.drop_last();
        assert forall|j: int| 0 <= j < t.len() implies t[j].id@ != id by {
            assert(t[j] == s[j]);
        }
        lemma_without_id_absent(t, id);
        assert(s[s.len() - 1] == s.last());
        assert(t.push(s.last()) =~= s);
    }
}

/// Writing keeps the ids distinct.
pub proof fn law_upsert_unique(s: Seq<Account>, a: Account)
    requires
        unique_ids(s),
    ensures
        unique_ids(upserted(s, a)),
{
    lemma_index_of_id_found(s, a.id@);
    let u = upserted(s, a);
    match index_of_id(s, a.id@) {
        Some(i) => {
            assert forall|x: int, y: int|
                0 <= x < u.len() && 0 <= y < u.len() && x != y implies u[x].id@ != u[y].id@ by {
                if x != i && y != i {
                } else if x == i {
                    assert(s[i].id@ == a.id@);
                } else {
                    assert(s[i].id@ == a.id@);
                }
            }
        },
        None => {
            assert forall|x: int, y: int|
                0 <= x < u.len() && 0 <= y < u.len() && x != y implies u[x].id@ != u[y].id@ by {
                if x < s.len() && y < s.len() {
                    assert(u[x] == s[x] && u[y] == s[y]);
                } else if x < s.len() {
                    assert(u[x] == s[x]);
                } else {
                    assert(u[y] == s[y]);
                }
            }
        },
    }
}

/// Removing keeps the ids distinct.
pub proof fn law_remove_unique(s: Seq<Account>, id: Seq<char>)
    requires
        unique_ids(s),
    ensures
        unique_ids(without_id(s, id)),
    decreases s.len(),
{
    if s.len() > 0 {
        let t = s.drop_last();
        assert(unique_ids(t)) by {
            assert forall|x: int, y: int|
                0 <= x < t.len() && 0 <= y < t.len() && x != y implies t[x].id@ != t[y].id@ by {
                assert(t[x] == s[x] && t[y] == s[y]);
            }
        }
        law_remove_unique(t, id);
        lemma_without_id(t, id);
        if s.last().id@ != id {
            let w = without_id(t, id);
            let u = w.push(s.last());
            assert forall|x: int, y: int|
                0 <= x < u.len() && 0 <= y < u.len() && x != y implies u[x].id@ != u[y].id@ by {
                if x < w.len() && y < w.len() {
                    assert(u[x] == w[x] && u[y] == w[y]);
                } else if x < w.len() {
                    assert(u[x] == w[x]);
                    assert(t.contains(w[x]));
                    let k = choose|k: int| 0 <= k < t.len() && t[k] == w[x];
                    assert(s[k] == t[k]);
                    assert(s[s.len() - 1] == s.last());
                } else {
                    assert(u[y] == w[y]);
                    assert(t.contains(w[y]));
                    let k = choose|k: int| 0 <= k < t.len() && t[k] == w[y];
                    assert(s[k] == t[k]);
                    assert(s[s.len() - 1] == s.last());
                }
            }
        }
    }
}

/// Writing the same account twice is the same as writing it once.
pub proof fn law_upsert_idempotent(s: Seq<Account>, a: Account)
    ensures
        upserted(upserted(s, a), a) == upserted(s, a),
{
    lemma_index_of_id_found(s, a.id@);
    let u = upserted(s, a);
    match index_of_id(s, a.id@) {
        Some(i) => {
            assert forall|j: int| 0 <= j < i implies u[j].id@ != a.id@ by {}
            lemma_index_of_id(u, a.id@, i);
            assert(u.update(i, a) =~= u);
        },
        None => {
            assert forall|j: int| 0 <= j < s.len() implies u[j].id@ != a.id@ by {
                assert(u[j] == s[j]);
            }
            lemma_index_of_id(u, a.id@, s.len() as int);
            assert(u.update(s.len() as int, a) =~= u);
        },
    }
}

/// A write adds one account exactly when no account had that id.
pub proof fn law_upsert_len(s: Seq<Account>, a: Account)
    ensures
        upserted(s, a).len() == s.len() + (if lookup(s, a.id@) is Some {
            0int
        } else {
            1int
        }),
{
    lemma_index_of_id_found(s, a.id@);
}

/// A pending authorization reads back as it was recorded, and taking it out
/// leaves the others as they were before it was recorded.
pub proof fn law_take_after_insert(m: Map<Seq<char>, PendingAuth>, p: PendingAuth)
    ensures
        m.insert(p.account_id@, p).contains_key(p.account_id@),
        m.insert(p.account_id@, p)[p.account_id@] == p,
        m.insert(p.account_id@, p).remove(p.account_id@) == m.remove(p.account_id@),
{
    assert(m.insert(p.account_id@, p).remove(p.account_id@) =~= m.remove(p.account_id@));
}

}
