//! The session-scoped cache index: a content-addressed mapping from request
//! keys (canonical request URLs) to short content file names.
//!
//! The file name of a key is a pure function of the key: a cryptographic
//! digest rendered as lowercase hex and truncated to ten characters. The
//! in-memory table is only the index; the files themselves are written and
//! read by the surrounding program, which reports the outcome of each write
//! back to `record_outcome` so that the index never points at a file that
//! was not written (write-before-index).

use vstd::prelude::*;

verus! {

pub type Url = String;

pub type FileName = String;

/// The digest of a request key, as computed by the trusted hash wrapper.
pub uninterp spec fn sha256_of(key: Seq<char>) -> Seq<u8>;

/// Relies on sha2's `Sha256` (through the `Digest` trait): a 32-byte digest
/// that is a function of the input bytes alone.
#[verifier::external_body]
fn sha256_digest(msg: &str) -> (r: Vec<u8>)
    ensures
        r@ == sha256_of(msg@),
        r@.len() == 32,
{
    <sha2::Sha256 as sha2::Digest>::digest(msg.as_bytes()).to_vec()
}

/// Relies on std's `String::push`: appends one character.
#[verifier::external_body]
pub(crate) fn push_char(s: &mut String, c: char)
    ensures
        final(s)@ == old(s)@.push(c),
{
    s.push(c);
}

/// A lowercase hex digit, the alphabet of content file names.
pub open spec fn is_lower_hex_digit(c: char) -> bool {
    ('0' <= c && c <= '9') || ('a' <= c && c <= 'f')
}

/// The lowercase hex digit for a value below 16.
pub open spec fn hex_digit(n: int) -> char {
    if n == 0 { '0' }
    else if n == 1 { '1' }
    else if n == 2 { '2' }
    else if n == 3 { '3' }
    else if n == 4 { '4' }
    else if n == 5 { '5' }
    else if n == 6 { '6' }
    else if n == 7 { '7' }
    else if n == 8 { '8' }
    else if n == 9 { '9' }
    else if n == 10 { 'a' }
    else if n == 11 { 'b' }
    else if n == 12 { 'c' }
    else if n == 13 { 'd' }
    else if n == 14 { 'e' }
    else { 'f' }
}

/// Lowercase hex rendering of a byte sequence, two digits per byte.
pub open spec fn hex_of_bytes(bytes: Seq<u8>) -> Seq<char>
    decreases bytes.len(),
{
    if bytes.len() == 0 {
        Seq::empty()
    } else {
        hex_of_bytes(bytes.drop_last()).push(hex_digit(bytes.last() as int / 16)).push(
            hex_digit(bytes.last() as int % 16),
        )
    }
}

pub proof fn lemma_hex_of_bytes_len(bytes: Seq<u8>)
    ensures
        hex_of_bytes(bytes).len() == 2 * bytes.len(),
    decreases bytes.len(),
{
    if bytes.len() > 0 {
        lemma_hex_of_bytes_len(bytes.drop_last());
    }
}

pub proof fn lemma_hex_of_bytes_digits(bytes: Seq<u8>)
    ensures
        forall|i: int|
            0 <= i < hex_of_bytes(bytes).len() ==> is_lower_hex_digit(
                #[trigger] hex_of_bytes(bytes)[i],
            ),
    decreases bytes.len(),
{
    if bytes.len() > 0 {
        lemma_hex_of_bytes_digits(bytes.drop_last());
        let pre = hex_of_bytes(bytes.drop_last());
        let whole = hex_of_bytes(bytes);
        assert forall|i: int| 0 <= i < whole.len() implies is_lower_hex_digit(
            #[trigger] whole[i]) by {
            if i < pre.len() {
                assert(whole[i] == pre[i]);
            } else if i == pre.len() {
                assert(whole[i] == hex_digit(bytes.last() as int / 16));
            } else {
                assert(whole[i] == hex_digit(bytes.last() as int % 16));
            }
        }
    }
}

/// The content file name of a request key: the first ten hex digits of the
/// key's digest.
pub open spec fn content_name_of(key: Seq<char>) -> Seq<char> {
    hex_of_bytes(sha256_of(key)).take(10)
}

/// Idempotent hashing: the content file name is a pure function of the
/// request key, so hashing the same key twice yields the same name.
pub proof fn lemma_hash_deterministic(k1: Seq<char>, k2: Seq<char>)
    requires
        k1 == k2,
    ensures
        content_name_of(k1) == content_name_of(k2),
{
}

fn hex_digit_char(n: u8) -> (c: char)
    requires
        n < 16,
    ensures
        c == hex_digit(n as int),
{
    if n == 0 { '0' }
    else if n == 1 { '1' }
    else if n == 2 { '2' }
    else if n == 3 { '3' }
    else if n == 4 { '4' }
    else if n == 5 { '5' }
    else if n == 6 { '6' }
    else if n == 7 { '7' }
    else if n == 8 { '8' }
    else if n == 9 { '9' }
    else if n == 10 { 'a' }
    else if n == 11 { 'b' }
    else if n == 12 { 'c' }
    else if n == 13 { 'd' }
    else if n == 14 { 'e' }
    else { 'f' }
}

/// Lowercase hex rendering of a byte vector.
fn hex_string(bytes: &Vec<u8>) -> (s: String)
    ensures
        s@ == hex_of_bytes(bytes@),
{
    let mut s = String::new();
    let mut i: usize = 0;
    while i < bytes.len()
        invariant
            i <= bytes@.len(),
            s@ == hex_of_bytes(bytes@.take(i as int)),
        decreases bytes@.len() - i,
    {
        let b = bytes[i];
        push_char(&mut s, hex_digit_char(b / 16));
        push_char(&mut s, hex_digit_char(b % 16));
        i += 1;
        proof {
            let pre = bytes@.take(i - 1);
            let cur = bytes@.take(i as int);
            assert(cur.drop_last() =~= pre);
            assert(cur.last() == bytes@[i - 1]);
        }
    }
    proof {
        assert(bytes@.take(bytes@.len() as int) =~= bytes@);
    }
    s
}

/// The content file name for a request key: a digest of the key, rendered as
/// lowercase hex and truncated to ten characters, so the name is short and
/// filesystem-safe.
pub fn create_hash(msg: &str) -> (r: String)
    ensures
        r@ == content_name_of(msg@),
        r@.len() == 10,
        forall|i: int| 0 <= i < r@.len() ==> is_lower_hex_digit(#[trigger] r@[i]),
{
    let digest = sha256_digest(msg);
    let hex = hex_string(&digest);
    proof {
        lemma_hex_of_bytes_len(digest@);
        lemma_hex_of_bytes_digits(digest@);
    }
    let name = hex.as_str().substring_char(0, 10);
    proof {
        assert(name@ =~= content_name_of(msg@));
        assert forall|i: int| 0 <= i < name@.len() implies is_lower_hex_digit(
            #[trigger] name@[i]) by {
            assert(name@[i] == hex@[i]);
        }
    }
    String::from_str(name)
}

/// The lookup table of a session as a mathematical map from request keys to
/// content file names.
pub open spec fn map_of_pairs(s: Seq<(String, String)>) -> Map<Seq<char>, Seq<char>>
    decreases s.len(),
{
    if s.len() == 0 {
        Map::empty()
    } else {
        map_of_pairs(s.drop_last()).insert(s.last().0@, s.last().1@)
    }
}

/// No request key occurs twice in the table.
pub open spec fn unique_keys(s: Seq<(String, String)>) -> bool {
    forall|i: int, j: int| 0 <= i < j < s.len() ==> (#[trigger] s[i]).0@ != (#[trigger] s[j]).0@
}

pub proof fn lemma_map_of_pairs_contains(s: Seq<(String, String)>, k: Seq<char>)
    ensures
        map_of_pairs(s).contains_key(k) <==> exists|i: int|
            0 <= i < s.len() && (#[trigger] s[i]).0@ == k,
    decreases s.len(),
{
    if s.len() > 0 {
        lemma_map_of_pairs_contains(s.drop_last(), k);
        if s.last().0@ == k {
            assert(s[s.len() - 1].0@ == k);
        } else {
            if map_of_pairs(s).contains_key(k) {
                let i = choose|i: int| 0 <= i < s.drop_last().len() && (#[trigger] s.drop_last()[i]).0@ == k;
                assert(s[i].0@ == k);
            }
            if exists|i: int| 0 <= i < s.len() && (#[trigger] s[i]).0@ == k {
                let i = choose|i: int| 0 <= i < s.len() && (#[trigger] s[i]).0@ == k;
                assert(i < s.len() - 1);
                assert(s.drop_last()[i].0@ == k);
            }
        }
    }
}

pub proof fn lemma_map_of_pairs_index(s: Seq<(String, String)>, i: int)
    requires
        unique_keys(s),
        0 <= i < s.len(),
    ensures
        map_of_pairs(s).contains_key(s[i].0@),
        map_of_pairs(s)[s[i].0@] == s[i].1@,
    decreases s.len(),
{
    if i == s.len() - 1 {
    } else {
        assert(unique_keys(s.drop_last())) by {
            assert forall|a: int, b: int|
                0 <= a < b < s.drop_last().len() implies (#[trigger] s.drop_last()[a]).0@ != (
            #[trigger] s.drop_last()[b]).0@ by {
                assert(s[a].0@ != s[b].0@);
            }
        }
        lemma_map_of_pairs_index(s.drop_last(), i);
        assert(s.drop_last()[i] == s[i]);
        assert(s[i].0@ != s[s.len() - 1].0@);
    }
}

/// One run's cache: the in-memory index from request keys to content file
/// names, scoped to a randomly named session directory.
pub struct CachingSession {
    pub lookup_table: Vec<(Url, FileName)>,
    pub session_name: String,
}

/// An ASCII alphanumeric character, the alphabet of session names.
pub open spec fn is_session_char(c: char) -> bool {
    ('a' <= c && c <= 'z') || ('A' <= c && c <= 'Z') || ('0' <= c && c <= '9')
}

/// Relies on rand's `Alphanumeric` distribution sampled from the thread RNG:
/// every sample is an ASCII alphanumeric character, so the returned string
/// has exactly the requested number of characters, each alphanumeric.
#[verifier::external_body]
fn random_session_name() -> (r: String)
    ensures
        r@.len() == 10,
        forall|i: int| 0 <= i < r@.len() ==> is_session_char(#[trigger] r@[i]),
{
    rand::distr::SampleString::sample_string(&rand::distr::Alphanumeric, &mut rand::rng(), 10)
}

impl CachingSession {
    /// The index as a mathematical map.
    pub open spec fn table_map(self) -> Map<Seq<char>, Seq<char>> {
        map_of_pairs(self.lookup_table@)
    }

    /// Well-formedness: request keys are unique, and every entry's file name
    /// is the content name of its key (a pure function of the key).
    pub open spec fn wf(self) -> bool {
        &&& unique_keys(self.lookup_table@)
        &&& forall|i: int|
            0 <= i < self.lookup_table@.len() ==> (#[trigger] self.lookup_table@[i]).1@
                == content_name_of(self.lookup_table@[i].0@)
    }

    /// A fresh session: an empty index under a new random session name.
    pub fn new() -> (s: Self)
        ensures
            s.wf(),
            s.table_map() == Map::<Seq<char>, Seq<char>>::empty(),
            s.session_name@.len() == 10,
            forall|i: int|
                0 <= i < s.session_name@.len() ==> is_session_char(#[trigger] s.session_name@[i]),
    {
        CachingSession { lookup_table: Vec::new(), session_name: random_session_name() }
    }

    /// Whether a request key is present in the index.
    pub fn has_url(&self, url: &Url) -> (r: bool)
        ensures
            r == self.table_map().contains_key(url@),
    {
        let n = self.lookup_table.len();
        let mut i: usize = 0;
        while i < n
            invariant
                n == self.lookup_table@.len(),
                i <= n,
                forall|j: int| 0 <= j < i ==> (#[trigger] self.lookup_table@[j]).0@ != url@,
            decreases n - i,
        {
            if self.lookup_table[i].0.eq(url) {
                proof {
                    lemma_map_of_pairs_contains(self.lookup_table@, url@);
                    assert((self.lookup_table@[i as int]).0@ == url@);
                }
                return true;
            }
            i += 1;
        }
        proof {
            lemma_map_of_pairs_contains(self.lookup_table@, url@);
        }
        false
    }

    /// The content file name recorded for a request key, if any.
    pub fn cached_file_name(&self, url: &Url) -> (r: Option<FileName>)
        requires
            self.wf(),
        ensures
            match r {
                Some(name) => self.table_map().contains_key(url@) && name@
                    == self.table_map()[url@],
                None => !self.table_map().contains_key(url@),
            },
    {
        let n = self.lookup_table.len();
        let mut i: usize = 0;
        while i < n
            invariant
                self.wf(),
                n == self.lookup_table@.len(),
                i <= n,
                forall|j: int| 0 <= j < i ==> (#[trigger] self.lookup_table@[j]).0@ != url@,
            decreases n - i,
        {
            if self.lookup_table[i].0.eq(url) {
                proof {
                    assert((self.lookup_table@[i as int]).0@ == url@);
                    lemma_map_of_pairs_index(self.lookup_table@, i as int);
                }
                return Some(self.lookup_table[i].1.clone());
            }
            i += 1;
        }
        proof {
            lemma_map_of_pairs_contains(self.lookup_table@, url@);
        }
        None
    }

    /// Write-before-index: the caller first writes the content file and then
    /// reports the outcome here. Only a successful write inserts the entry;
    /// after a failed write the index is exactly as before, so it never
    /// points at a file that does not exist.
    pub fn record_outcome(&mut self, url: &Url, file_name: FileName, write_ok: bool)
        requires
            old(self).wf(),
            file_name@ == content_name_of(url@),
        ensures
            final(self).wf(),
            final(self).session_name == old(self).session_name,
            write_ok ==> final(self).table_map() == old(self).table_map().insert(
                url@,
                file_name@,
            ),
            !write_ok ==> *final(self) == *old(self),
    {
        if !write_ok {
            return;
        }
        if self.has_url(url) {
            proof {
                lemma_map_of_pairs_contains(self.lookup_table@, url@);
                let i = choose|i: int|
                    0 <= i < self.lookup_table@.len() && (#[trigger] self.lookup_table@[i]).0@
                        == url@;
                lemma_map_of_pairs_index(self.lookup_table@, i);
                assert(self.table_map()[url@] == file_name@);
                assert(self.table_map().insert(url@, file_name@) =~= self.table_map());
            }
            return;
        }
        proof {
            lemma_map_of_pairs_contains(self.lookup_table@, url@);
        }
        let ghost pre = self.lookup_table@;
        self.lookup_table.push((url.clone(), file_name));
        proof {
            assert(self.lookup_table@.drop_last() =~= pre);
            assert forall|i: int, j: int|
                0 <= i < j < self.lookup_table@.len() implies (#[trigger] self.lookup_table@[i]).0@
                != (#[trigger] self.lookup_table@[j]).0@ by {
                if j < pre.len() {
                    assert(pre[i].0@ != pre[j].0@);
                } else {
                    assert(pre[i].0@ != url@);
                }
            }
        }
    }
}

impl Default for CachingSession {
    /// An empty index under a fixed placeholder session name.
    fn default() -> (s: Self)
        ensures
            s.wf(),
            s.table_map() == Map::<Seq<char>, Seq<char>>::empty(),
            s.session_name@ == "session_name"@,
    {
        CachingSession {
            lookup_table: Vec::new(),
            session_name: String::from_str("session_name"),
        }
    }
}

/// The index map after recording a key with write outcome `write_ok`, as
/// `record_outcome` leaves it.
pub open spec fn recorded_index(
    m: Map<Seq<char>, Seq<char>>,
    key: Seq<char>,
    write_ok: bool,
) -> Map<Seq<char>, Seq<char>> {
    if write_ok {
        m.insert(key, content_name_of(key))
    } else {
        m
    }
}

/// Write-before-index, stated over the index map: after a successful write
/// the key is present and names its content file; after a failed write the
/// index is exactly as before, so a key absent before is still absent.
pub proof fn lemma_write_before_index(m: Map<Seq<char>, Seq<char>>, key: Seq<char>, write_ok: bool)
    ensures
        write_ok ==> recorded_index(m, key, write_ok).contains_key(key) && recorded_index(
            m,
            key,
            write_ok,
        )[key] == content_name_of(key),
        !write_ok ==> recorded_index(m, key, write_ok) == m && recorded_index(
            m,
            key,
            write_ok,
        ).contains_key(key) == m.contains_key(key),
{
}

/// The cache root directory under a home directory.
pub open spec fn cache_root_spec(home: Seq<char>) -> Seq<char> {
    home + "/.cache/wik/caches/"@
}

/// A session's directory under the cache root.
pub open spec fn session_dir_spec(home: Seq<char>, session: Seq<char>) -> Seq<char> {
    cache_root_spec(home) + session + "/"@
}

/// The path of a content file within a session's directory.
pub open spec fn cache_file_path_spec(
    home: Seq<char>,
    session: Seq<char>,
    name: Seq<char>,
) -> Seq<char> {
    session_dir_spec(home, session) + name
}

/// Relies on dirs' `home_dir`: the platform home directory if one is known,
/// as a string when it is valid text.
#[verifier::external_body]
fn home_dir_string() -> (r: Option<String>) {
    match dirs::home_dir() {
        Some(p) => match p.to_str() {
            Some(s) => Some(s.to_string()),
            None => None,
        },
        None => None,
    }
}

/// The cache root directory of this machine, when a home directory is known.
pub fn cache_root_dir() -> (r: Option<String>)
    ensures
        r matches Some(p) ==> exists|home: Seq<char>| p@ == #[trigger] cache_root_spec(home),
{
    match home_dir_string() {
        Some(h) => {
            let ghost hv = h@;
            let mut s = h;
            s.append("/.cache/wik/caches/");
            proof {
                assert(s@ == cache_root_spec(hv));
            }
            Some(s)
        },
        None => None,
    }
}

/// Builds the path of a content file from its parts.
pub fn session_file_path(home: &str, session: &str, file_name: &str) -> (r: String)
    ensures
        r@ == cache_file_path_spec(home@, session@, file_name@),
{
    let mut s = String::from_str(home);
    s.append("/.cache/wik/caches/");
    s.append(session);
    s.append("/");
    s.append(file_name);
    s
}

impl CachingSession {
    /// The path of a content file in this session's directory, when a home
    /// directory is known.
    pub fn get_cache_file_path(&self, file_name: &str) -> (r: Option<String>)
        ensures
            r matches Some(p) ==> exists|home: Seq<char>|
                p@ == #[trigger] cache_file_path_spec(home, self.session_name@, file_name@),
    {
        match home_dir_string() {
            Some(h) => {
                let ghost hv = h@;
                let p = session_file_path(h.as_str(), self.session_name.as_str(), file_name);
                proof {
                    assert(p@ == cache_file_path_spec(hv, self.session_name@, file_name@));
                }
                Some(p)
            },
            None => None,
        }
    }
}

} // verus!
