//! Artifact store layout: where a key lives on disk, its public URL, the
//! key builders, and how a read or a probe of the backing file is reported.
use vstd::prelude::*;
use crate::text::{
    has_prefix, join2, join3, starts_with, trim_end_char, trim_end_matches,
    trim_start_char, trim_start_matches,
};

verus! {

pub open spec fn http_scheme() -> Seq<char> {
    seq!['h', 't', 't', 'p', ':', '/', '/']
}

pub open spec fn https_scheme() -> Seq<char> {
    seq!['h', 't', 't', 'p', 's', ':', '/', '/']
}

/// Length of the `http://` or `https://` that `s` starts with; 0 if none.
pub open spec fn scheme_len(s: Seq<char>) -> int {
    if starts_with(s, http_scheme()) {
        7
    } else if starts_with(s, https_scheme()) {
        8
    } else {
        0
    }
}

/// `s` starts with two schemes in a row (`http://https://...` and the like).
pub open spec fn has_doubled_scheme(s: Seq<char>) -> bool {
    scheme_len(s) > 0 && scheme_len(s.skip(scheme_len(s))) > 0
}

/// Drops the first of two leading schemes until no doubled scheme is left.
pub open spec fn normalize_scheme(s: Seq<char>) -> Seq<char>
    decreases s.len(),
{
    if has_doubled_scheme(s) {
        normalize_scheme(s.skip(scheme_len(s)))
    } else {
        s
    }
}

/// The public URL of a key: the base without trailing slashes, normalized,
/// then one slash, then the key without leading slashes.
pub open spec fn public_url(base_url: Seq<char>, key: Seq<char>) -> Seq<char> {
    normalize_scheme(trim_end_char(base_url, '/')) + seq!['/'] + trim_start_char(key, '/')
}

/// The file path of a key: the key, without leading slashes, under the base
/// directory, with one separator between them.
pub open spec fn joined_path(base_dir: Seq<char>, key: Seq<char>) -> Seq<char> {
    let rel = trim_start_char(key, '/');
    if base_dir.len() == 0 {
        rel
    } else if base_dir.last() == '/' {
        base_dir + rel
    } else {
        base_dir + seq!['/'] + rel
    }
}

fn scheme_prefix_len(s: &str) -> (r: usize)
    ensures
        r as int == scheme_len(s@),
{
    proof {
        reveal_strlit("http://");
        reveal_strlit("https://");
        assert("http://"@ =~= http_scheme());
        assert("https://"@ =~= https_scheme());
    }
    if has_prefix(s, "http://") {
        7
    } else if has_prefix(s, "https://") {
        8
    } else {
        0
    }
}

/// Collapses doubled scheme prefixes (`http://http://` to `http://`,
/// `http://https://` to `https://`, and the other two) until none is left.
pub fn normalize_url_scheme(s: &str) -> (r: String)
    ensures
        r@ == normalize_scheme(s@),
{
    let mut cur = String::from_str(s);
    loop
        invariant
            normalize_scheme(cur@) == normalize_scheme(s@),
        decreases cur@.len(),
    {
        let k = scheme_prefix_len(cur.as_str());
        if k == 0 {
            return cur;
        }
        let n = cur.as_str().unicode_len();
        let next = String::from_str(cur.as_str().substring_char(k, n));
        assert(next@ =~= cur@.skip(k as int));
        if scheme_prefix_len(next.as_str()) == 0 {
            return cur;
        }
        cur = next;
    }
}

/// Idempotence of the scheme normalization: its result has no doubled
/// scheme left, so normalizing it again changes nothing.
pub proof fn lemma_normalize_idempotent(s: Seq<char>)
    ensures
        !has_doubled_scheme(normalize_scheme(s)),
        normalize_scheme(normalize_scheme(s)) == normalize_scheme(s),
    decreases s.len(),
{
    if has_doubled_scheme(s) {
        lemma_normalize_idempotent(s.skip(scheme_len(s)));
    }
}

/// Storage of artifacts as files under a base directory, served under a base URL.
#[derive(Clone, Debug)]
pub struct LocalFileStorage {
    pub base_dir: String,
    pub base_url: String,
}

/// How a read or a metadata probe of a backing file failed.
#[derive(Clone, Debug, PartialEq, Eq)]
pub enum IoFailure {
    NotFound,
    Other(String),
}

/// A storage failure other than a missing file.
#[derive(Clone, Debug, PartialEq, Eq)]
pub enum StoreError {
    Io(String),
}

impl LocalFileStorage {
    pub fn new(base_dir: String, base_url: String) -> (r: LocalFileStorage)
        ensures
            r.base_dir@ == base_dir@,
            r.base_url@ == base_url@,
    {
        LocalFileStorage { base_dir, base_url }
    }

    /// The URL under which the artifact at `key` is served.
    pub fn get_public_url(&self, key: &str) -> (r: String)
        ensures
            r@ == public_url(self.base_url@, key@),
    {
        let base = trim_end_matches(self.base_url.as_str(), '/');
        let normalized = normalize_url_scheme(base);
        let rel = trim_start_matches(key, '/');
        proof {
            reveal_strlit("/");
        }
        join3(normalized.as_str(), "/", rel)
    }

    /// `images/<hash>`.
    pub fn get_image_prefix(hash: &str) -> (r: String)
        ensures
            r@ == "images/"@ + hash@,
    {
        join2("images/", hash)
    }

    /// `<prefix>/meta.json`.
    pub fn get_meta_key(prefix: &str) -> (r: String)
        ensures
            r@ == prefix@ + "/meta.json"@,
    {
        join2(prefix, "/meta.json")
    }

    /// `<prefix>/original.<ext>`.
    pub fn get_original_key(prefix: &str, ext: &str) -> (r: String)
        ensures
            r@ == prefix@ + "/original."@ + ext@,
    {
        join3(prefix, "/original.", ext)
    }

    /// `<prefix>/result.<ext>`.
    pub fn get_result_key(prefix: &str, ext: &str) -> (r: String)
        ensures
            r@ == prefix@ + "/result."@ + ext@,
    {
        join3(prefix, "/result.", ext)
    }

    /// The file that holds the artifact at `key`.
    pub fn resolve_path(&self, key: &str) -> (r: String)
        ensures
            r@ == joined_path(self.base_dir@, key@),
    {
        join_path(self.base_dir.as_str(), key)
    }
}

/// `key`, without leading slashes, under the directory `base`.
pub fn join_path(base: &str, key: &str) -> (r: String)
    ensures
        r@ == joined_path(base@, key@),
{
    let rel = trim_start_matches(key, '/');
    proof {
        reveal_strlit("/");
    }
    if base.unicode_len() == 0 {
        String::from_str(rel)
    } else if has_suffix_slash(base) {
        join2(base, rel)
    } else {
        join3(base, "/", rel)
    }
}

fn has_suffix_slash(s: &str) -> (r: bool)
    requires
        s@.len() > 0,
    ensures
        r == (s@.last() == '/'),
{
    let n = s.unicode_len();
    s.get_char(n - 1) == '/'
}

/// What a read of the backing file means to the store: the bytes read, a
/// cache miss for a missing file, an error for any other failure.
pub fn classify_read(read: Result<Vec<u8>, IoFailure>) -> (r: Result<Option<Vec<u8>>, StoreError>)
    ensures
        read matches Ok(b) ==> r == Ok::<Option<Vec<u8>>, StoreError>(Some(b)),
        read == Err::<Vec<u8>, IoFailure>(IoFailure::NotFound) ==> r == Ok::<Option<Vec<u8>>, StoreError>(None),
        read matches Err(IoFailure::Other(m)) ==> r == Err::<Option<Vec<u8>>, StoreError>(StoreError::Io(m)),
{
    match read {
        Ok(b) => Ok(Some(b)),
        Err(IoFailure::NotFound) => Ok(None),
        Err(IoFailure::Other(m)) => Err(StoreError::Io(m)),
    }
}

/// What a metadata probe of the backing file means: present, absent, or an error.
pub fn classify_probe(probe: Result<(), IoFailure>) -> (r: Result<bool, StoreError>)
    ensures
        probe is Ok ==> r == Ok::<bool, StoreError>(true),
        probe == Err::<(), IoFailure>(IoFailure::NotFound) ==> r == Ok::<bool, StoreError>(false),
        probe matches Err(IoFailure::Other(m)) ==> r == Err::<bool, StoreError>(StoreError::Io(m)),
{
    match probe {
        Ok(()) => Ok(true),
        Err(IoFailure::NotFound) => Ok(false),
        Err(IoFailure::Other(m)) => Err(StoreError::Io(m)),
    }
}

} // verus!
