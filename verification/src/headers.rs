use vstd::prelude::*;

use crate::text::{
    ascii_lower, chars_of, find_from, first_index, str_eq, trim, trim_range, trim_str,
};

verus! {

// ---------------------------------------------------------------------------
// Text conversions done by the standard library
// ---------------------------------------------------------------------------

/// What `String::from_utf8_lossy` makes of `bytes`.
pub uninterp spec fn utf8_lossy(bytes: Seq<u8>) -> Seq<char>;

/// Decodes bytes as UTF-8, with U+FFFD for each invalid sequence
/// (`String::from_utf8_lossy`). The contract names the result; it adds that
/// valid UTF-8 comes through as it decodes.
#[verifier::external_body]
pub(crate) fn decode_lossy(bytes: &[u8]) -> (s: String)
    ensures
        s@ == utf8_lossy(bytes@),
        vstd::utf8::valid_utf8(bytes@) ==> s@ == vstd::utf8::decode_utf8(bytes@),
{
    String::from_utf8_lossy(bytes).into_owned()
}

/// What `str::to_lowercase` makes of `s`.
pub uninterp spec fn lowercase(s: Seq<char>) -> Seq<char>;

/// `s` with the ASCII capitals `A`..`Z` made small and every other character kept.
pub open spec fn ascii_lowercased(s: Seq<char>) -> Seq<char> {
    Seq::new(s.len(), |i: int| ascii_lower(s[i]))
}

/// The Unicode lower case of `s` (`str::to_lowercase`); the contract names the
/// result, and states it for ASCII text, where only `A`..`Z` change (to `a`..`z`).
#[verifier::external_body]
pub(crate) fn to_lowercase(s: &str) -> (r: String)
    ensures
        r@ == lowercase(s@),
        (forall|i: int| 0 <= i < s@.len() ==> (#[trigger] s@[i] as u32) < 128) ==> r@
            == ascii_lowercased(s@),
{
    s.to_lowercase()
}

// ---------------------------------------------------------------------------
// Lines
// ---------------------------------------------------------------------------

pub proof fn lemma_first_index_bounds(s: Seq<char>, c: char)
    ensures
        first_index(s, c) matches Some(i) ==> 0 <= i < s.len() && s[i] == c && forall|j: int|
            0 <= j < i ==> s[j] != c,
        first_index(s, c) is None ==> forall|j: int| 0 <= j < s.len() ==> s[j] != c,
    decreases s.len(),
{
    if s.len() > 0 {
        lemma_first_index_bounds(s.drop_first(), c);
        if s[0] != c {
            assert forall|j: int| 1 <= j < s.len() implies s[j] == s.drop_first()[j - 1] by {}
        }
    }
}

/// `line` without the `'\r'` that ends it, if one does.
pub open spec fn strip_cr(line: Seq<char>) -> Seq<char> {
    if line.len() > 0 && line.last() == '\r' {
        line.drop_last()
    } else {
        line
    }
}

/// The lines of `s` as `str::lines` yields them: split after each `'\n'`,
/// with the `'\n'` and a `'\r'` before it dropped; no empty line after a
/// final `'\n'`; a last line without `'\n'` kept whole.
pub open spec fn text_lines(s: Seq<char>) -> Seq<Seq<char>>
    decreases s.len(),
{
    if s.len() == 0 {
        Seq::empty()
    } else {
        proof {
            lemma_first_index_bounds(s, '\n');
        }
        match first_index(s, '\n') {
            Some(i) => seq![strip_cr(s.take(i))] + text_lines(s.skip(i + 1)),
            None => seq![s],
        }
    }
}

// ---------------------------------------------------------------------------
// Header maps
// ---------------------------------------------------------------------------

/// The position of the entry for key `k`.
pub open spec fn key_index(s: Seq<(String, String)>, k: Seq<char>) -> Option<int>
    decreases s.len(),
{
    if s.len() == 0 {
        None
    } else if s[0].0@ == k {
        Some(0)
    } else {
        match key_index(s.drop_first(), k) {
            Some(i) => Some(i + 1),
            None => None,
        }
    }
}

proof fn lemma_key_index(s: Seq<(String, String)>, k: Seq<char>, i: int)
    requires
        0 <= i <= s.len(),
        forall|j: int| 0 <= j < i ==> s[j].0@ != k,
    ensures
        i < s.len() && s[i].0@ == k ==> key_index(s, k) == Some(i),
        i == s.len() ==> key_index(s, k) is None,
    decreases i,
{
    if i > 0 {
        lemma_key_index(s.drop_first(), k, i - 1);
    }
}

proof fn lemma_key_found(s: Seq<(String, String)>, k: Seq<char>)
    ensures
        key_index(s, k) matches Some(i) ==> 0 <= i < s.len() && s[i].0@ == k,
        key_index(s, k) is None ==> forall|j: int| 0 <= j < s.len() ==> s[j].0@ != k,
    decreases s.len(),
{
    if s.len() > 0 {
        lemma_key_found(s.drop_first(), k);
        if s[0].0@ != k {
            assert forall|j: int| 1 <= j < s.len() implies s[j] == s.drop_first()[j - 1] by {}
        }
    }
}

/// The entries as a map from key to value.
pub open spec fn entries_map(s: Seq<(String, String)>) -> Map<Seq<char>, Seq<char>> {
    Map::new(|k: Seq<char>| key_index(s, k) is Some, |k: Seq<char>| s[key_index(s, k)->0].1@)
}

/// No key occurs twice.
pub open spec fn unique_keys(s: Seq<(String, String)>) -> bool {
    forall|i: int, j: int| 0 <= i < s.len() && 0 <= j < s.len() && i != j ==> s[i].0@ != s[j].0@
}

/// Header fields by lower-case name, each name once.
pub struct HeaderMap {
    entries: Vec<(String, String)>,
}

impl HeaderMap {
    /// The fields as a map.
    pub closed spec fn view_map(&self) -> Map<Seq<char>, Seq<char>> {
        entries_map(self.entries@)
    }

    /// No field name occurs twice.
    pub closed spec fn wf(&self) -> bool {
        unique_keys(self.entries@)
    }

    /// An empty map.
    pub fn new() -> (m: HeaderMap)
        ensures
            m.wf(),
            m.view_map() == Map::<Seq<char>, Seq<char>>::empty(),
    {
        let m = HeaderMap { entries: Vec::new() };
        assert(entries_map(m.entries@) =~= Map::<Seq<char>, Seq<char>>::empty());
        m
    }

    fn position(&self, k: &str) -> (r: Option<usize>)
        ensures
            r matches Some(i) ==> key_index(self.entries@, k@) == Some(i as int) && i
                < self.entries@.len(),
            r is None ==> key_index(self.entries@, k@) is None,
    {
        let n = self.entries.len();
        for i in 0..n
            invariant
                n == self.entries@.len(),
                forall|j: int| 0 <= j < i ==> self.entries@[j].0@ != k@,
        {
            if str_eq(self.entries[i].0.as_str(), k) {
                proof {
                    lemma_key_index(self.entries@, k@, i as int);
                }
                return Some(i);
            }
        }
        proof {
            lemma_key_index(self.entries@, k@, n as int);
        }
        None
    }

    /// Sets the value for `k`, replacing an earlier one.
    pub fn insert(&mut self, k: String, v: String)
        requires
            old(self).wf(),
        ensures
            final(self).wf(),
            final(self).view_map() == old(self).view_map().insert(k@, v@),
    {
        let ghost old_s = self.entries@;
        let ghost key = k@;
        let ghost val = v@;
        match self.position(k.as_str()) {
            Some(i) => {
                self.entries.set(i, (k, v));
                proof {
                    let new_s = self.entries@;
                    lemma_key_found(old_s, key);
                    assert forall|x: Seq<char>| #[trigger] key_index(new_s, x) == key_index(old_s, x) by {
                        lemma_key_found(old_s, x);
                        lemma_key_found(new_s, x);
                        if key_index(old_s, x) is Some {
                            let q = key_index(old_s, x)->0;
                            assert forall|j: int| 0 <= j < q implies new_s[j].0@ != x by {
                                lemma_key_index(old_s, x, q);
                                if old_s[j].0@ == x {
                                    lemma_key_index(old_s, x, j);
                                }
                            }
                            lemma_key_index(new_s, x, q);
                        } else {
                            lemma_key_index(new_s, x, new_s.len() as int);
                        }
                    }
                    assert forall|a: int, b: int|
                        0 <= a < new_s.len() && 0 <= b < new_s.len() && a != b implies new_s[a].0@
                        != new_s[b].0@ by {}
                    assert forall|x: Seq<char>| #[trigger]
                        entries_map(new_s).dom().contains(x) implies entries_map(new_s)[x]
                        == entries_map(old_s).insert(key, val)[x] by {
                        lemma_key_found(old_s, x);
                        let q = key_index(old_s, x)->0;
                        if x != key {
                            assert(q != i);
                            assert(new_s[q] == old_s[q]);
                        }
                    }
                    assert(entries_map(new_s) =~= entries_map(old_s).insert(key, val));
                }
            },
            None => {
                self.entries.push((k, v));
                proof {
                    let new_s = self.entries@;
                    lemma_key_found(old_s, key);
                    assert forall|x: Seq<char>| #[trigger] key_index(new_s, x) == (if x == key {
                        Some(old_s.len() as int)
                    } else {
                        key_index(old_s, x)
                    }) by {
                        lemma_key_found(old_s, x);
                        if key_index(old_s, x) is Some {
                            let q = key_index(old_s, x)->0;
                            assert forall|j: int| 0 <= j < q implies new_s[j].0@ != x by {
                                if old_s[j].0@ == x {
                                    lemma_key_index(old_s, x, j);
                                }
                            }
                            lemma_key_index(new_s, x, q);
                        } else {
                            lemma_key_index(new_s, x, old_s.len() as int);
                            if x != key {
                                lemma_key_index(new_s, x, new_s.len() as int);
                            }
                        }
                    }
                    assert forall|a: int, b: int|
                        0 <= a < new_s.len() && 0 <= b < new_s.len() && a != b implies new_s[a].0@
                        != new_s[b].0@ by {
                        if a < old_s.len() && b < old_s.len() {
                        } else if a < old_s.len() {
                            assert(new_s[a] == old_s[a]);
                        } else {
                            assert(new_s[b] == old_s[b]);
                        }
                    }
                    assert forall|x: Seq<char>| #[trigger]
                        entries_map(new_s).dom().contains(x) implies entries_map(new_s)[x]
                        == entries_map(old_s).insert(key, val)[x] by {
                        lemma_key_found(old_s, x);
                        if x != key {
                            let q = key_index(old_s, x)->0;
                            assert(new_s[q] == old_s[q]);
                        }
                    }
                    assert(entries_map(new_s) =~= entries_map(old_s).insert(key, val));
                }
            },
        }
    }

    /// The value for `k`, if there is one.
    pub fn get(&self, k: &str) -> (r: Option<String>)
        ensures
            r matches Some(v) ==> self.view_map().contains_key(k@) && v@ == self.view_map()[k@],
            r is None ==> !self.view_map().contains_key(k@),
    {
        match self.position(k) {
            Some(i) => Some(self.entries[i].1.clone()),
            None => None,
        }
    }

    /// The value for `k`, or the empty string.
    pub fn get_or_empty(&self, k: &str) -> (r: String)
        ensures
            r@ == (if self.view_map().contains_key(k@) {
                self.view_map()[k@]
            } else {
                Seq::empty()
            }),
    {
        match self.get(k) {
            Some(v) => v,
            None => String::new(),
        }
    }

    /// The number of fields.
    pub fn len(&self) -> (n: usize)
        requires
            self.wf(),
        ensures
            n == self.view_map().len(),
    {
        proof {
            self.lemma_len();
        }
        self.entries.len()
    }

    proof fn lemma_len(&self)
        requires
            self.wf(),
        ensures
            self.view_map().len() == self.entries@.len(),
            self.view_map().dom().finite(),
    {
        let s = self.entries@;
        let keys = s.map_values(|e: (String, String)| e.0@);
        assert forall|k: Seq<char>| self.view_map().dom().contains(k) <==> keys.to_set().contains(k) by {
            lemma_key_found(s, k);
            if keys.to_set().contains(k) {
                let j = choose|j: int| 0 <= j < keys.len() && keys[j] == k;
                assert(s[j].0@ == k);
            }
            if key_index(s, k) is Some {
                let j = key_index(s, k)->0;
                assert(keys[j] == k);
            }
        }
        assert(self.view_map().dom() =~= keys.to_set());
        assert(keys.no_duplicates()) by {
            assert forall|a: int, b: int|
                0 <= a < keys.len() && 0 <= b < keys.len() && a != b implies keys[a] != keys[b] by {}
        }
        keys.unique_seq_to_set();
    }

    /// The fields as (name, value) pairs.
    pub fn to_pairs(&self) -> (r: Vec<(String, String)>)
        ensures
            entries_map(r@) == self.view_map(),
            self.wf() ==> unique_keys(r@),
    {
        let mut r: Vec<(String, String)> = Vec::new();
        let n = self.entries.len();
        for i in 0..n
            invariant
                n == self.entries@.len(),
                r@ == self.entries@.take(i as int),
        {
            let e = (self.entries[i].0.clone(), self.entries[i].1.clone());
            r.push(e);
            assert(self.entries@.take(i + 1) == self.entries@.take(i as int).push(
                self.entries@[i as int],
            ));
        }
        assert(self.entries@.take(n as int) == self.entries@);
        r
    }
}

// ---------------------------------------------------------------------------
// Parsing a header block
// ---------------------------------------------------------------------------

/// Where the reading of a header block stands: the field being read and the
/// fields read before it.
pub struct HeaderScan {
    pub key: Seq<char>,
    pub val: Seq<char>,
    pub map: Map<Seq<char>, Seq<char>>,
}

/// The fields once the field being read is stored (under its lower-case name).
pub open spec fn flush(st: HeaderScan) -> Map<Seq<char>, Seq<char>> {
    if st.key.len() > 0 {
        st.map.insert(lowercase(st.key), trim(st.val))
    } else {
        st.map
    }
}

/// Reads one line: a line that starts with a space or a tab continues the
/// field being read; any other line ends it and starts the field named
/// before its first `:`, or no field if it has none.
pub open spec fn scan_line(st: HeaderScan, line: Seq<char>) -> HeaderScan {
    if line.len() > 0 && (line[0] == ' ' || line[0] == '\t') {
        HeaderScan { key: st.key, val: st.val.push(' ') + trim(line), map: st.map }
    } else {
        match first_index(line, ':') {
            Some(p) => HeaderScan {
                key: trim(line.take(p)),
                val: trim(line.skip(p + 1)),
                map: flush(st),
            },
            None => HeaderScan { key: Seq::empty(), val: Seq::empty(), map: flush(st) },
        }
    }
}

/// Reads the lines in order.
pub open spec fn scan_lines(lines: Seq<Seq<char>>, st: HeaderScan) -> HeaderScan
    decreases lines.len(),
{
    if lines.len() == 0 {
        st
    } else {
        scan_lines(lines.drop_first(), scan_line(st, lines[0]))
    }
}

/// The fields of a header block written as `text`.
pub open spec fn header_fields(text: Seq<char>) -> Map<Seq<char>, Seq<char>> {
    flush(
        scan_lines(
            text_lines(text),
            HeaderScan { key: Seq::empty(), val: Seq::empty(), map: Map::empty() },
        ),
    )
}

fn flush_into(map: &mut HeaderMap, key: &String, val: &String)
    requires
        old(map).wf(),
    ensures
        final(map).wf(),
        final(map).view_map() == flush(
            HeaderScan { key: key@, val: val@, map: old(map).view_map() },
        ),
{
    if !key.as_str().is_empty() {
        let lk = to_lowercase(key.as_str());
        let tv = trim_str(val.as_str());
        map.insert(lk, tv);
    }
}

/// Reads a header block: its lines are decoded from `raw` as lossy UTF-8, and
/// each field is stored under the lower case of its name with its value
/// trimmed; a later field of the same name wins.
pub fn parse_headers(raw: &[u8]) -> (m: HeaderMap)
    ensures
        m.wf(),
        m.view_map() == header_fields(utf8_lossy(raw@)),
{
    let text = decode_lossy(raw);
    let cs = chars_of(text.as_str());
    let ghost all = cs@;
    let mut key = String::new();
    let mut val = String::new();
    let mut map = HeaderMap::new();
    let n = cs.len();
    let mut p: usize = 0;
    assert(all.skip(0) =~= all);
    while p < n
        invariant
            n == cs@.len(),
            all == cs@,
            p <= n,
            map.wf(),
            scan_lines(text_lines(all.skip(p as int)), HeaderScan { key: key@, val: val@, map: map.view_map() })
                == scan_lines(
                text_lines(all),
                HeaderScan { key: Seq::empty(), val: Seq::empty(), map: Map::empty() },
            ),
        decreases n - p,
    {
        let ghost rest = all.skip(p as int);
        let ghost st = HeaderScan { key: key@, val: val@, map: map.view_map() };
        let (end, next) = match find_from(cs.as_slice(), p, '\n') {
            Some(i) => {
                if i > p && cs[i - 1] == '\r' {
                    (i - 1, i + 1)
                } else {
                    (i, i + 1)
                }
            },
            None => (n, n),
        };
        let ghost line = all.subrange(p as int, end as int);
        proof {
            lemma_first_index_bounds(rest, '\n');
            assert(rest.len() > 0);
            match first_index(rest, '\n') {
                Some(i) => {
                    assert(rest.take(i) =~= all.subrange(p as int, p + i));
                    assert(rest.skip(i + 1) =~= all.skip(next as int));
                    if i > 0 && all[p + i - 1] == '\r' {
                        assert(strip_cr(rest.take(i)) =~= line);
                    } else {
                        assert(strip_cr(rest.take(i)) =~= line);
                    }
                },
                None => {
                    assert(rest =~= line);
                    assert(all.skip(next as int).len() == 0);
                    assert(text_lines(all.skip(next as int)) =~= Seq::<Seq<char>>::empty());
                },
            }
            assert(text_lines(rest) =~= seq![line] + text_lines(all.skip(next as int)));
            assert((seq![line] + text_lines(all.skip(next as int))).drop_first() =~= text_lines(
                all.skip(next as int),
            ));
        }
        let lslice = &cs[p..end];
        assert(lslice@ == line);
        if end > p && (cs[p] == ' ' || cs[p] == '\t') {
            let piece = trim_range(lslice, 0, end - p);
            assert(lslice@.subrange(0, (end - p) as int) =~= line);
            push_space(&mut val);
            val.append(piece.as_str());
        } else {
            flush_into(&mut map, &key, &val);
            match find_from(lslice, 0, ':') {
                Some(q) => {
                    proof {
                        assert(lslice@.skip(0) =~= line);
                        assert(line.take(q as int) =~= lslice@.subrange(0, q as int));
                        assert(line.skip(q + 1) =~= lslice@.subrange(q + 1, (end - p) as int));
                    }
                    key = trim_range(lslice, 0, q);
                    val = trim_range(lslice, q + 1, end - p);
                },
                None => {
                    assert(lslice@.skip(0) =~= line);
                    key = String::new();
                    val = String::new();
                },
            }
        }
        p = next;
    }
    proof {
        assert(all.skip(n as int).len() == 0);
        assert(text_lines(all.skip(n as int)) =~= Seq::<Seq<char>>::empty());
    }
    flush_into(&mut map, &key, &val);
    map
}

/// Appends a space.
fn push_space(s: &mut String)
    ensures
        final(s)@ == old(s)@.push(' '),
{
    crate::text::push_char(s, ' ');
}

}
